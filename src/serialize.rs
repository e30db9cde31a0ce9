use vstd::prelude::*;
use crate::meta::{Literal, LiteralV, MetaNode, NodeV, nodes_view};
use crate::schema::{FieldKind, FieldSpec, RecordSpec, field_key};
use crate::value::{FieldValue, Value, ValueV};

verus! {

/// The literal that writes a scalar or enumerated value.
pub open spec fn value_literal(v: ValueV) -> LiteralV {
    match v {
        ValueV::Lit(l) => l,
        ValueV::Variant(t) => LiteralV::Str(t),
        _ => LiteralV::Str(Seq::empty()),
    }
}

/// The text that writes a mapping key as a node name.
pub open spec fn key_text(v: ValueV) -> Seq<char> {
    match v {
        ValueV::Lit(LiteralV::Str(s)) => s,
        ValueV::Variant(t) => t,
        _ => Seq::empty(),
    }
}

/// The name of the node that an element of a sequence of the given kind is written as.
pub open spec fn element_name(kind: &FieldKind, key: Seq<char>) -> Seq<char>
    decreases kind,
{
    match kind {
        FieldKind::Optional(inner) => element_name(inner, key),
        FieldKind::Nested(sub) => sub.declared_path@,
        _ => key,
    }
}

/// The node that writes a value of a field of the given kind under the given key.
pub open spec fn value_node(kind: &FieldKind, v: ValueV, key: Seq<char>) -> NodeV
    decreases kind, 2nat, 0nat,
{
    match kind {
        FieldKind::Optional(inner) => value_node(inner, v, key),
        FieldKind::Nested(sub) => match v {
            ValueV::Record(fs) => NodeV::List(key, record_nodes(fs, sub, sub.fields.len() as int)),
            _ => NodeV::List(key, Seq::empty()),
        },
        FieldKind::Sequence(inner) => match v {
            ValueV::List(vs) => NodeV::List(key, element_nodes(kind, vs, key)),
            _ => NodeV::List(key, Seq::empty()),
        },
        FieldKind::Mapping(_, _) => match v {
            ValueV::Mapping(es) => NodeV::List(key, entry_nodes(es)),
            _ => NodeV::List(key, Seq::empty()),
        },
        _ => NodeV::NameValue(key, value_literal(v)),
    }
}

/// The nodes that write the elements of a sequence field.
pub open spec fn element_nodes(seq_kind: &FieldKind, vs: Seq<ValueV>, key: Seq<char>) -> Seq<NodeV>
    decreases seq_kind, 1nat, 0nat,
{
    match seq_kind {
        FieldKind::Sequence(inner) => Seq::new(
            vs.len(),
            |i: int| element_node(inner, vs[i], element_name(inner, key)),
        ),
        _ => Seq::empty(),
    }
}

/// The nodes that write the entries of a mapping: `key = value` each.
pub open spec fn entry_nodes(es: Seq<(ValueV, ValueV)>) -> Seq<NodeV> {
    Seq::new(es.len(), |i: int| NodeV::NameValue(key_text(es[i].0), value_literal(es[i].1)))
}

/// The node that writes an element of a sequence: a bare literal for a scalar or enumerated
/// element.
pub open spec fn element_node(kind: &FieldKind, v: ValueV, name: Seq<char>) -> NodeV
    decreases kind, 3nat, 0nat,
{
    match value_node(kind, v, name) {
        NodeV::NameValue(_, l) => NodeV::Lit(l),
        other => other,
    }
}

/// The value of the `j`-th field in a record's field list (the empty marker past its end).
pub open spec fn field_value_at(fs: Seq<(Seq<char>, ValueV)>, j: int) -> ValueV {
    if 0 <= j < fs.len() {
        fs[j].1
    } else {
        ValueV::Missing
    }
}

/// The nodes that write a field: none for the empty marker.
pub open spec fn field_nodes(f: &FieldSpec, v: ValueV) -> Seq<NodeV>
    decreases f, 0nat, 0nat,
{
    if v is Missing {
        Seq::empty()
    } else {
        seq![value_node(&f.kind, v, f.key())]
    }
}

/// The nodes that write the first `j` fields of a record, in the schema's order.
pub open spec fn record_nodes(fs: Seq<(Seq<char>, ValueV)>, spec: &RecordSpec, j: int) -> Seq<NodeV>
    decreases spec, 0nat, j,
{
    if j <= 0 || j > spec.fields.len() {
        Seq::empty()
    } else {
        record_nodes(fs, spec, j - 1) + field_nodes(&spec.fields[j - 1], field_value_at(fs, j - 1))
    }
}

/// The nodes that write a record value.
pub open spec fn serialized(v: ValueV, spec: &RecordSpec) -> Seq<NodeV> {
    match v {
        ValueV::Record(fs) => record_nodes(fs, spec, spec.fields.len() as int),
        _ => Seq::empty(),
    }
}

fn empty_list(key: &String) -> (r: MetaNode)
    ensures
        r.view_node() == NodeV::List(key@, Seq::empty()),
{
    let r = MetaNode::List(key.clone(), Vec::new());
    proof {
        if let NodeV::List(_, c) = r.view_node() {
            assert(c =~= Seq::<NodeV>::empty());
        }
    }
    r
}

fn literal_of(v: &Value) -> (r: Literal)
    ensures
        r@ == value_literal(v.view_value()),
{
    match v {
        Value::Lit(l) => l.copy(),
        Value::Variant(t) => Literal::Str(t.clone()),
        _ => Literal::Str(String::new()),
    }
}

fn key_text_of(v: &Value) -> (r: String)
    ensures
        r@ == key_text(v.view_value()),
{
    match v {
        Value::Lit(Literal::Str(s)) => s.clone(),
        Value::Variant(t) => t.clone(),
        _ => String::new(),
    }
}

fn element_name_of(kind: &FieldKind, key: &String) -> (r: String)
    ensures
        r@ == element_name(kind, key@),
    decreases kind,
{
    match kind {
        FieldKind::Optional(inner) => element_name_of(inner, key),
        FieldKind::Nested(sub) => sub.declared_path.clone(),
        _ => key.clone(),
    }
}

/// Writes a value of a field of the given kind as one node named `key`.
pub fn write_value(kind: &FieldKind, v: &Value, key: &String) -> (r: MetaNode)
    ensures
        r.view_node() == value_node(kind, v.view_value(), key@),
    decreases kind, 0nat,
{
    match kind {
        FieldKind::Optional(inner) => write_value(inner, v, key),
        FieldKind::Nested(sub) => match v {
            Value::Record(fs) => {
                let out = write_fields(fs, sub);
                let r = MetaNode::List(key.clone(), out);
                proof {
                    if let NodeV::List(_, c) = r.view_node() {
                        assert(c =~= nodes_view(out@));
                    }
                    if let ValueV::Record(fv) = v.view_value() {
                        assert(fv =~= Seq::new(fs.len() as nat, |j: int| (fs@[j].name@, fs@[j].value.view_value())));
                    }
                }
                assert(r.view_node() == value_node(kind, v.view_value(), key@));
                r
            },
            _ => empty_list(key),
        },
        FieldKind::Sequence(inner) => match v {
            Value::List(vs) => {
                let name = element_name_of(inner, key);
                let mut out: Vec<MetaNode> = Vec::new();
                let mut i: usize = 0;
                assert(decreases_to!(kind => inner));
                while i < vs.len()
                    invariant
                        0 <= i <= vs.len(),
                        decreases_to!(kind => inner),
                        *kind == FieldKind::Sequence(*inner),
                        name@ == element_name(inner, key@),
                        out@.len() == i,
                        forall|j: int|
                            0 <= j < i ==> (#[trigger] out@[j]).view_node() == element_node(
                                inner,
                                vs@[j].view_value(),
                                name@,
                            ),
                    decreases vs.len() - i,
                {
                    out.push(write_element(inner, &vs[i], &name));
                    i += 1;
                }
                let r = MetaNode::List(key.clone(), out);
                proof {
                    if let NodeV::List(_, c) = r.view_node() {
                        if let ValueV::List(vv) = v.view_value() {
                            assert(c =~= element_nodes(kind, vv, key@));
                        }
                    }
                }
                assert(r.view_node() == value_node(kind, v.view_value(), key@));
                r
            },
            _ => empty_list(key),
        },
        FieldKind::Mapping(_, _) => match v {
            Value::Mapping(es) => {
                let mut out: Vec<MetaNode> = Vec::new();
                let mut i: usize = 0;
                while i < es.len()
                    invariant
                        0 <= i <= es.len(),
                        out@.len() == i,
                        forall|j: int|
                            0 <= j < i ==> (#[trigger] out@[j]).view_node() == NodeV::NameValue(
                                key_text(es@[j].key.view_value()),
                                value_literal(es@[j].value.view_value()),
                            ),
                    decreases es.len() - i,
                {
                    out.push(MetaNode::NameValue(key_text_of(&es[i].key), literal_of(&es[i].value)));
                    i += 1;
                }
                let r = MetaNode::List(key.clone(), out);
                proof {
                    if let NodeV::List(_, c) = r.view_node() {
                        if let ValueV::Mapping(ev) = v.view_value() {
                            assert(c =~= entry_nodes(ev));
                        }
                    }
                }
                assert(r.view_node() == value_node(kind, v.view_value(), key@));
                r
            },
            _ => empty_list(key),
        },
        _ => MetaNode::NameValue(key.clone(), literal_of(v)),
    }
}

fn write_element(kind: &FieldKind, v: &Value, name: &String) -> (r: MetaNode)
    ensures
        r.view_node() == element_node(kind, v.view_value(), name@),
    decreases kind, 1nat,
{
    let n = write_value(kind, v, name);
    match n {
        MetaNode::NameValue(_, l) => MetaNode::Lit(l),
        other => other,
    }
}

fn write_fields(fs: &Vec<FieldValue>, spec: &RecordSpec) -> (r: Vec<MetaNode>)
    ensures
        nodes_view(r@) == record_nodes(
            Seq::new(fs.len() as nat, |j: int| (fs@[j].name@, fs@[j].value.view_value())),
            spec,
            spec.fields.len() as int,
        ),
    decreases spec, 0nat,
{
    let ghost fv = Seq::new(fs.len() as nat, |j: int| (fs@[j].name@, fs@[j].value.view_value()));
    let mut out: Vec<MetaNode> = Vec::new();
    let mut i: usize = 0;
    assert(nodes_view(out@) =~= record_nodes(fv, spec, 0));
    while i < spec.fields.len()
        invariant
            0 <= i <= spec.fields.len(),
            fv == Seq::new(fs.len() as nat, |j: int| (fs@[j].name@, fs@[j].value.view_value())),
            nodes_view(out@) == record_nodes(fv, spec, i as int),
        decreases spec.fields.len() - i,
    {
        let f = &spec.fields[i];
        assert(decreases_to!(spec => spec.fields[i as int]));
        let ghost before = out@;
        if i < fs.len() {
            match &fs[i].value {
                Value::Missing => {},
                v => {
                    let key = field_key(f);
                    out.push(write_value(&f.kind, v, key));
                },
            }
        }
        assert(nodes_view(out@) =~= record_nodes(fv, spec, i as int) + field_nodes(
            f,
            field_value_at(fv, i as int),
        ));
        i += 1;
    }
    out
}

/// Writes a record value as the node list of its annotation: one node per field in the
/// schema's order, under the field's key, an optional field without a value left out.
pub fn serialize(value: &Value, spec: &RecordSpec) -> (r: Vec<MetaNode>)
    ensures
        nodes_view(r@) == serialized(value.view_value(), spec),
{
    match value {
        Value::Record(fs) => {
            let r = write_fields(fs, spec);
            proof {
                if let ValueV::Record(fv) = value.view_value() {
                    assert(fv =~= Seq::new(fs.len() as nat, |j: int| (fs@[j].name@, fs@[j].value.view_value())));
                }
            }
            r
        },
        _ => {
            let r: Vec<MetaNode> = Vec::new();
            assert(nodes_view(r@) =~= Seq::<NodeV>::empty());
            r
        },
    }
}

} // verus!
