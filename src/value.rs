use vstd::prelude::*;
use crate::meta::{Literal, LiteralV};

verus! {

/// A parsed annotation value.
#[derive(Debug)]
pub enum Value {
    /// The literal of a scalar field.
    Lit(Literal),
    /// The variant name of an enumerated field.
    Variant(String),
    /// The marker of an optional field that was not given.
    Missing,
    /// A record: each field's name and value, in the schema's order.
    Record(Vec<FieldValue>),
    /// The elements of a sequence field, in input order.
    List(Vec<Value>),
    /// The entries of a mapping field, keys distinct.
    Mapping(Vec<MapEntry>),
}

/// A field of a record value.
#[derive(Debug)]
pub struct FieldValue {
    pub name: String,
    pub value: Value,
}

/// An entry of a mapping value.
#[derive(Debug)]
pub struct MapEntry {
    pub key: Value,
    pub value: Value,
}

/// The mathematical model of a `Value`.
pub enum ValueV {
    Lit(LiteralV),
    Variant(Seq<char>),
    Missing,
    Record(Seq<(Seq<char>, ValueV)>),
    List(Seq<ValueV>),
    Mapping(Seq<(ValueV, ValueV)>),
}

impl Value {
    /// The mathematical model of this value.
    pub open spec fn view_value(&self) -> ValueV
        decreases self,
    {
        match self {
            Value::Lit(l) => ValueV::Lit(l@),
            Value::Variant(s) => ValueV::Variant(s@),
            Value::Missing => ValueV::Missing,
            Value::Record(fs) => ValueV::Record(
                Seq::new(
                    fs.len() as nat,
                    |i: int|
                        if 0 <= i < fs.len() {
                            (fs[i].name@, fs[i].value.view_value())
                        } else {
                            (Seq::empty(), ValueV::Missing)
                        },
                ),
            ),
            Value::List(vs) => ValueV::List(
                Seq::new(
                    vs.len() as nat,
                    |i: int| if 0 <= i < vs.len() { vs[i].view_value() } else { ValueV::Missing },
                ),
            ),
            Value::Mapping(es) => ValueV::Mapping(
                Seq::new(
                    es.len() as nat,
                    |i: int|
                        if 0 <= i < es.len() {
                            (es[i].key.view_value(), es[i].value.view_value())
                        } else {
                            (ValueV::Missing, ValueV::Missing)
                        },
                ),
            ),
        }
    }
}

} // verus!
