use vstd::prelude::*;
use crate::meta::{MetaNode, NodeV};

verus! {

/// What went wrong in a parse.
#[derive(Clone, Copy, PartialEq, Eq, Debug)]
pub enum DiagKind {
    MissingRequiredField,
    TypeMismatch,
    IntegerOutOfRange,
    UnknownVariant,
    MalformedShape,
}

/// A parse failure: its kind, the key of the field it concerns, the path of the record that
/// holds that field, the offending node (none when the node is missing or a declared default
/// is at fault), and, for an unknown variant, the variant names that the field accepts.
#[derive(Debug)]
pub struct Diagnostic {
    pub kind: DiagKind,
    pub key: String,
    pub path: String,
    pub node: Option<MetaNode>,
    pub allowed: Vec<String>,
}

/// The mathematical model of a `Diagnostic`.
pub struct DiagV {
    pub kind: DiagKind,
    pub key: Seq<char>,
    pub path: Seq<char>,
    pub node: Option<NodeV>,
    pub allowed: Seq<Seq<char>>,
}

impl View for Diagnostic {
    type V = DiagV;

    open spec fn view(&self) -> DiagV {
        DiagV {
            kind: self.kind,
            key: self.key@,
            path: self.path@,
            node: match self.node {
                Some(n) => Some(n.view_node()),
                None => None,
            },
            allowed: Seq::new(self.allowed.len() as nat, |i: int| self.allowed@[i]@),
        }
    }
}

/// A failure met while building a schema.
#[derive(Clone, Copy, PartialEq, Eq, Debug)]
pub enum SchemaError {
    /// A field's declared type is not one that a field can have.
    UnsupportedFieldType,
    /// A field's default is not a value that the field's kind accepts.
    InvalidDefault,
    /// The declaration is not a struct.
    NotAStruct,
}

} // verus!
