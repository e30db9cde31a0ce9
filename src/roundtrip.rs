use vstd::prelude::*;
use crate::convert::literal_value;
use crate::laws::{lemma_collect_all_ok, lemma_collect_ok};
use crate::meta::{LiteralV, MetaNode, NodeV, nodes_view};
use crate::parse::{
    collect, element_results, entry_result, entry_results, field_results, find_node,
    has_key, insert_all, keys_distinct, lemma_literal_value_form, node_result, record_result,
};
use crate::schema::{FieldKind, RecordSpec};
use crate::serialize::{
    element_name, element_node, element_nodes, entry_nodes, field_nodes, field_value_at, key_text,
    record_nodes, serialized, value_literal, value_node,
};
use crate::value::ValueV;

verus! {

/// Whether the fields of a record have pairwise distinct keys.
pub open spec fn keys_unique(spec: &RecordSpec) -> bool {
    forall|a: int, b: int|
        0 <= a < spec.fields.len() && 0 <= b < spec.fields.len() && a != b ==> (
        #[trigger] spec.fields@[a]).key() != (#[trigger] spec.fields@[b]).key()
}

/// Whether a field kind is well formed: every record schema within it has distinct keys.
pub open spec fn kind_wf(kind: &FieldKind) -> bool
    decreases kind, 0nat,
{
    match kind {
        FieldKind::Optional(inner) => kind_wf(inner),
        FieldKind::Nested(sub) => spec_wf(sub),
        FieldKind::Sequence(inner) => kind_wf(inner),
        _ => true,
    }
}

/// Whether a record schema is well formed: its fields have distinct keys, and each field's
/// kind is well formed.
pub open spec fn spec_wf(spec: &RecordSpec) -> bool
    decreases spec, 1nat,
{
    &&& keys_unique(spec)
    &&& forall|j: int| 0 <= j < spec.fields.len() ==> kind_wf(&(#[trigger] spec.fields@[j]).kind)
}

/// A value converted from a literal is written by a literal that converts back to it.
pub proof fn lemma_literal_round_trip(kind: &FieldKind, l: LiteralV)
    requires
        literal_value(kind, l) is Ok,
    ensures
        literal_value(kind, value_literal(literal_value(kind, l)->Ok_0)) == literal_value(kind, l),
    decreases kind,
{
    if let FieldKind::Optional(inner) = kind {
        lemma_literal_round_trip(inner, l);
    }
}

/// A mapping key converted from a name is written by that name.
pub proof fn lemma_key_text(kind: &FieldKind, name: Seq<char>)
    requires
        literal_value(kind, LiteralV::Str(name)) is Ok,
    ensures
        key_text(literal_value(kind, LiteralV::Str(name))->Ok_0) == name,
    decreases kind,
{
    if let FieldKind::Optional(inner) = kind {
        lemma_key_text(inner, name);
    }
}

/// The node that writes a value of a field carries the field's key.
pub proof fn lemma_value_node_name(kind: &FieldKind, v: ValueV, key: Seq<char>)
    ensures
        MetaNode::name_of(value_node(kind, v, key)) == Some(key),
    decreases kind,
{
    if let FieldKind::Optional(inner) = kind {
        lemma_value_node_name(inner, v, key);
    }
}

/// A value converted from a literal parses back from the node that writes it, as a field and
/// as a sequence element.
pub proof fn lemma_literal_node_round_trip(kind: &FieldKind, l: LiteralV, key: Seq<char>, path: Seq<char>, name: Seq<char>)
    requires
        literal_value(kind, l) is Ok,
    ensures
        node_result(kind, value_node(kind, literal_value(kind, l)->Ok_0, name), key, path) == Ok::<
            ValueV,
            crate::diag::DiagV,
        >(literal_value(kind, l)->Ok_0),
        node_result(kind, element_node(kind, literal_value(kind, l)->Ok_0, name), key, path) == Ok::<
            ValueV,
            crate::diag::DiagV,
        >(literal_value(kind, l)->Ok_0),
    decreases kind,
{
    lemma_literal_round_trip(kind, l);
    if let FieldKind::Optional(inner) = kind {
        lemma_literal_node_round_trip(inner, l, key, path, name);
    }
}

/// An entry of a mapping that is written by `key = value` and parses back to itself.
pub open spec fn entry_round_trips(kk: &FieldKind, vk: &FieldKind, e: (ValueV, ValueV)) -> bool {
    &&& literal_value(kk, LiteralV::Str(key_text(e.0))) == Ok::<ValueV, crate::diag::DiagKind>(e.0)
    &&& literal_value(vk, value_literal(e.1)) == Ok::<ValueV, crate::diag::DiagKind>(e.1)
}

/// Inserting entries keeps keys distinct and keeps only entries that were inserted.
pub proof fn lemma_insert_all(kk: &FieldKind, vk: &FieldKind, es: Seq<(ValueV, ValueV)>)
    requires
        forall|i: int| 0 <= i < es.len() ==> entry_round_trips(kk, vk, #[trigger] es[i]),
    ensures
        keys_distinct(insert_all(es)),
        forall|i: int|
            0 <= i < insert_all(es).len() ==> entry_round_trips(kk, vk, #[trigger] insert_all(es)[i]),
    decreases es.len(),
{
    if es.len() > 0 {
        let p = es.drop_last();
        assert forall|i: int| 0 <= i < p.len() implies entry_round_trips(kk, vk, #[trigger] p[i]) by {
            assert(p[i] == es[i]);
        }
        lemma_insert_all(kk, vk, p);
        let acc = insert_all(p);
        let e = es.last();
        assert(entry_round_trips(kk, vk, es[es.len() - 1]));
        if has_key(acc, e.0) {
            let c = choose|i: int| 0 <= i < acc.len() && (#[trigger] acc[i]).0 == e.0;
            let r = acc.update(c, e);
            assert(r == insert_all(es));
            assert forall|a: int, b: int| 0 <= a < b < r.len() implies (#[trigger] r[a]).0 != (
            #[trigger] r[b]).0 by {
                assert(acc[a].0 != acc[b].0);
            }
        } else {
            let r = acc.push(e);
            assert(r == insert_all(es));
            assert forall|a: int, b: int| 0 <= a < b < r.len() implies (#[trigger] r[a]).0 != (
            #[trigger] r[b]).0 by {
                if b == acc.len() {
                    assert(acc[a].0 != e.0);
                } else {
                    assert(acc[a].0 != acc[b].0);
                }
            }
        }
    }
}

/// Entries with distinct keys insert to themselves.
pub proof fn lemma_insert_all_distinct(es: Seq<(ValueV, ValueV)>)
    requires
        keys_distinct(es),
    ensures
        insert_all(es) == es,
    decreases es.len(),
{
    if es.len() > 0 {
        let p = es.drop_last();
        assert forall|a: int, b: int| 0 <= a < b < p.len() implies (#[trigger] p[a]).0 != (
        #[trigger] p[b]).0 by {
            assert(p[a] == es[a] && p[b] == es[b]);
        }
        lemma_insert_all_distinct(p);
        assert(!has_key(p, es.last().0)) by {
            if has_key(p, es.last().0) {
                let c = choose|i: int| 0 <= i < p.len() && (#[trigger] p[i]).0 == es.last().0;
                assert(es[c].0 != es[es.len() - 1].0);
            }
        }
        assert(p.push(es.last()) =~= es);
    }
}

/// A parsed node never yields the empty marker.
pub proof fn lemma_node_not_missing(kind: &FieldKind, n: NodeV, key: Seq<char>, path: Seq<char>)
    ensures
        node_result(kind, n, key, path) matches Ok(v) ==> !(v is Missing),
    decreases kind,
{
    match kind {
        FieldKind::Optional(inner) => lemma_node_not_missing(inner, n, key, path),
        FieldKind::Nested(sub) => {
            if let NodeV::List(_, ch) = n {
                assert(record_result(ch, sub) matches Ok(v) ==> v is Record);
            }
        },
        FieldKind::Scalar(_) | FieldKind::EnumValue(_) => match n {
            NodeV::NameValue(_, l) => lemma_literal_value_form(kind, l),
            NodeV::Lit(l) => lemma_literal_value_form(kind, l),
            _ => {},
        },
        _ => {},
    }
}

/// Looking a key up in two node lists in a row.
pub proof fn lemma_find_node_concat(a: Seq<NodeV>, b: Seq<NodeV>, k: Seq<char>)
    ensures
        find_node(a + b, k) == match find_node(a, k) {
            Some(x) => Some(x),
            None => find_node(b, k),
        },
    decreases a.len(),
{
    if a.len() == 0 {
        assert(a + b =~= b);
    } else {
        assert((a + b)[0] == a[0]);
        assert((a + b).skip(1) =~= a.skip(1) + b);
        lemma_find_node_concat(a.skip(1), b, k);
    }
}

/// Where the written fields come from a parse, a field's key finds the node that writes it,
/// or none for the empty marker.
pub proof fn lemma_find_written(fs: Seq<(Seq<char>, ValueV)>, spec: &RecordSpec, m: int, j: int)
    requires
        keys_unique(spec),
        0 <= m <= spec.fields.len(),
        0 <= j < spec.fields.len(),
    ensures
        find_node(record_nodes(fs, spec, m), spec.fields@[j].key()) == if j < m && !(field_value_at(
            fs,
            j,
        ) is Missing) {
            Some(value_node(&spec.fields@[j].kind, field_value_at(fs, j), spec.fields@[j].key()))
        } else {
            None
        },
    decreases m,
{
    let k = spec.fields@[j].key();
    if m == 0 {
    } else {
        lemma_find_written(fs, spec, m - 1, j);
        let f = spec.fields@[m - 1];
        assert(spec.fields[m - 1] == f);
        let a = record_nodes(fs, spec, m - 1);
        let b = field_nodes(&f, field_value_at(fs, m - 1));
        assert(record_nodes(fs, spec, m) == a + b);
        lemma_find_node_concat(a, b, k);
        if j != m - 1 {
            assert(f.key() != k);
        }
        if !(field_value_at(fs, m - 1) is Missing) {
            let x = value_node(&f.kind, field_value_at(fs, m - 1), f.key());
            lemma_value_node_name(&f.kind, field_value_at(fs, m - 1), f.key());
            assert(b == seq![x]);
            assert(b[0] == x);
            let t = b.skip(1);
            assert(t.len() == 0);
            assert(find_node(t, k) is None);
            assert(find_node(b, k) == if f.key() == k {
                Some(x)
            } else {
                find_node(t, k)
            });
        } else {
            assert(b.len() == 0);
            assert(find_node(b, k) is None);
        }
    }
}

/// A parsed node parses back from the node that writes its value, as a field and as a
/// sequence element.
pub proof fn lemma_node_round_trip(kind: &FieldKind, n: NodeV, key: Seq<char>, path: Seq<char>, name: Seq<char>)
    requires
        kind_wf(kind),
        node_result(kind, n, key, path) is Ok,
    ensures
        node_result(kind, value_node(kind, node_result(kind, n, key, path)->Ok_0, name), key, path)
            == node_result(kind, n, key, path),
        node_result(kind, element_node(kind, node_result(kind, n, key, path)->Ok_0, name), key, path)
            == node_result(kind, n, key, path),
    decreases kind,
{
    let v = node_result(kind, n, key, path)->Ok_0;
    match kind {
        FieldKind::Optional(inner) => {
            lemma_node_round_trip(inner, n, key, path, name);
        },
        FieldKind::Nested(sub) => {
            if let NodeV::List(_, ch) = n {
                lemma_record_round_trip(ch, sub);
            }
        },
        FieldKind::Sequence(inner) => {
            if let NodeV::List(_, ch) = n {
                let rs = element_results(kind, ch, key, path);
                lemma_collect_ok(rs);
                let vs = collect(rs)->Ok_0;
                let ename = element_name(inner, name);
                let ch2 = element_nodes(kind, vs, name);
                let rs2 = element_results(kind, ch2, key, path);
                assert forall|i: int| 0 <= i < rs2.len() implies #[trigger] rs2[i] == Ok::<
                    ValueV,
                    crate::diag::DiagV,
                >(vs[i]) by {
                    assert(rs[i] == node_result(inner, ch[i], key, path));
                    lemma_node_round_trip(inner, ch[i], key, path, ename);
                }
                lemma_collect_all_ok(rs2);
                assert(collect(rs2)->Ok_0 =~= vs);
            }
        },
        FieldKind::Mapping(kk, vk) => {
            if let NodeV::List(_, ch) = n {
                let rs = entry_results(kk, vk, ch, key, path);
                lemma_collect_ok(rs);
                let raw = collect(rs)->Ok_0;
                assert forall|i: int| 0 <= i < raw.len() implies entry_round_trips(
                    kk,
                    vk,
                    #[trigger] raw[i],
                ) by {
                    assert(rs[i] == entry_result(kk, vk, ch[i], key, path));
                    assert(rs[i] == Ok::<(ValueV, ValueV), crate::diag::DiagV>(raw[i]));
                    if let NodeV::NameValue(nm, l) = ch[i] {
                        lemma_key_text(kk, nm);
                        lemma_literal_round_trip(kk, LiteralV::Str(nm));
                        lemma_literal_round_trip(vk, l);
                    }
                }
                lemma_insert_all(kk, vk, raw);
                let es = insert_all(raw);
                let ch2 = entry_nodes(es);
                let rs2 = entry_results(kk, vk, ch2, key, path);
                assert forall|i: int| 0 <= i < rs2.len() implies #[trigger] rs2[i] == Ok::<
                    (ValueV, ValueV),
                    crate::diag::DiagV,
                >(es[i]) by {
                    assert(entry_round_trips(kk, vk, es[i]));
                }
                lemma_collect_all_ok(rs2);
                assert(collect(rs2)->Ok_0 =~= es);
                lemma_insert_all_distinct(es);
            }
        },
        _ => {
            match n {
                NodeV::NameValue(_, l) => lemma_literal_node_round_trip(kind, l, key, path, name),
                NodeV::Lit(l) => lemma_literal_node_round_trip(kind, l, key, path, name),
                _ => {},
            }
        },
    }
}

/// Round trip on content: a record value that a parse produced, written back as nodes,
/// parses to the same value.
pub proof fn lemma_record_round_trip(ns: Seq<NodeV>, spec: &RecordSpec)
    requires
        spec_wf(spec),
        record_result(ns, spec) is Ok,
    ensures
        record_result(serialized(record_result(ns, spec)->Ok_0, spec), spec) == record_result(
            ns,
            spec,
        ),
    decreases spec,
{
    let rs = field_results(ns, spec);
    lemma_collect_ok(rs);
    let fs = collect(rs)->Ok_0;
    let n = spec.fields.len() as int;
    let nodes = record_nodes(fs, spec, n);
    let rs2 = field_results(nodes, spec);
    assert forall|j: int| 0 <= j < rs2.len() implies #[trigger] rs2[j] == Ok::<
        (Seq<char>, ValueV),
        crate::diag::DiagV,
    >(fs[j]) by {
        let f = spec.fields@[j];
        assert(spec.fields[j] == f);
        assert(kind_wf(&spec.fields@[j].kind));
        assert(rs[j] == Ok::<(Seq<char>, ValueV), crate::diag::DiagV>(fs[j]));
        lemma_find_written(fs, spec, n, j);
        assert(field_value_at(fs, j) == fs[j].1);
        let k = f.key();
        match find_node(ns, k) {
            Some(n0) => {
                lemma_node_not_missing(&f.kind, n0, k, spec.declared_path@);
                assert(decreases_to!(spec => spec.fields));
                assert(decreases_to!(spec.fields => spec.fields[j]));
                lemma_node_round_trip(&f.kind, n0, k, spec.declared_path@, k);
            },
            None => {
                if let Some(d) = f.default {
                    lemma_literal_value_form(&f.kind, d@);
                    lemma_literal_node_round_trip(&f.kind, d@, k, spec.declared_path@, k);
                }
            },
        }
    }
    lemma_collect_all_ok(rs2);
    assert(collect(rs2)->Ok_0 =~= fs);
}

/// Round trip through the two engines: where `parse` turned `nodes` into `v` and `serialize`
/// wrote `v` as `written`, parsing `written` gives `v` again.
pub proof fn lemma_parse_serialize_round_trip(
    nodes: Seq<MetaNode>,
    spec: &RecordSpec,
    v: ValueV,
    written: Seq<MetaNode>,
)
    requires
        spec_wf(spec),
        record_result(nodes_view(nodes), spec) == Ok::<ValueV, crate::diag::DiagV>(v),
        nodes_view(written) == serialized(v, spec),
    ensures
        record_result(nodes_view(written), spec) == Ok::<ValueV, crate::diag::DiagV>(v),
{
    lemma_record_round_trip(nodes_view(nodes), spec);
}

} // verus!
