use vstd::prelude::*;
use crate::convert::{convert_literal, literal_value};
use crate::diag::{DiagKind, DiagV, Diagnostic};
use crate::meta::{Literal, LiteralV, MetaNode, NodeV, nodes_view};
use crate::schema::{FieldKind, FieldSpec, RecordSpec, field_key};
use crate::value::{FieldValue, MapEntry, Value, ValueV};

verus! {

/// The values of a sequence of outcomes, or the first failure among them.
pub open spec fn collect<A, E>(rs: Seq<Result<A, E>>) -> Result<Seq<A>, E>
    decreases rs.len(),
{
    if rs.len() == 0 {
        Ok(Seq::empty())
    } else {
        match collect(rs.drop_last()) {
            Err(e) => Err(e),
            Ok(vs) => match rs.last() {
                Err(e) => Err(e),
                Ok(v) => Ok(vs.push(v)),
            },
        }
    }
}

/// The first node of `ns` named `key`.
pub open spec fn find_node(ns: Seq<NodeV>, key: Seq<char>) -> Option<NodeV>
    decreases ns.len(),
{
    if ns.len() == 0 {
        None
    } else if MetaNode::name_of(ns[0]) == Some(key) {
        Some(ns[0])
    } else {
        find_node(ns.skip(1), key)
    }
}

/// A diagnostic model.
pub open spec fn diag(
    kind: DiagKind,
    key: Seq<char>,
    path: Seq<char>,
    node: Option<NodeV>,
    allowed: Seq<Seq<char>>,
) -> DiagV {
    DiagV { kind, key, path, node, allowed }
}

/// The variant names that a field of the given kind accepts (none where it is not enumerated).
pub open spec fn allowed_of(kind: &FieldKind) -> Seq<Seq<char>>
    decreases kind,
{
    match kind {
        FieldKind::Optional(inner) => allowed_of(inner),
        FieldKind::EnumValue(e) => Seq::new(e.variants.len() as nat, |i: int| e.variants@[i]@),
        _ => Seq::empty(),
    }
}

/// The diagnostic for a literal that a field of the given kind refuses: an unknown variant
/// carries the variant names the field accepts.
pub open spec fn literal_diag(
    k: DiagKind,
    kind: &FieldKind,
    key: Seq<char>,
    path: Seq<char>,
    node: Option<NodeV>,
) -> DiagV {
    diag(
        k,
        key,
        path,
        node,
        if k == DiagKind::UnknownVariant {
            allowed_of(kind)
        } else {
            Seq::empty()
        },
    )
}

/// Whether the keys of a mapping are pairwise distinct.
pub open spec fn keys_distinct(es: Seq<(ValueV, ValueV)>) -> bool {
    forall|i: int, j: int| 0 <= i < j < es.len() ==> (#[trigger] es[i]).0 != (#[trigger] es[j]).0
}

/// Whether a mapping has an entry for `k`.
pub open spec fn has_key(es: Seq<(ValueV, ValueV)>, k: ValueV) -> bool {
    exists|i: int| 0 <= i < es.len() && (#[trigger] es[i]).0 == k
}

/// Adds an entry to a mapping; an entry with the same key is replaced where it stands.
pub open spec fn upsert(es: Seq<(ValueV, ValueV)>, e: (ValueV, ValueV)) -> Seq<(ValueV, ValueV)> {
    if has_key(es, e.0) {
        es.update(choose|i: int| 0 <= i < es.len() && (#[trigger] es[i]).0 == e.0, e)
    } else {
        es.push(e)
    }
}

/// The mapping that entries give in order, a later entry for a key overriding an earlier one.
pub open spec fn insert_all(es: Seq<(ValueV, ValueV)>) -> Seq<(ValueV, ValueV)>
    decreases es.len(),
{
    if es.len() == 0 {
        Seq::empty()
    } else {
        upsert(insert_all(es.drop_last()), es.last())
    }
}

/// The outcome of parsing one mapping entry.
pub open spec fn entry_result(
    key_kind: &FieldKind,
    val_kind: &FieldKind,
    n: NodeV,
    key: Seq<char>,
    path: Seq<char>,
) -> Result<(ValueV, ValueV), DiagV> {
    match n {
        NodeV::NameValue(name, l) => match literal_value(key_kind, LiteralV::Str(name)) {
            Err(k) => Err(literal_diag(k, key_kind, key, path, Some(n))),
            Ok(kv) => match literal_value(val_kind, l) {
                Err(k) => Err(literal_diag(k, val_kind, key, path, Some(n))),
                Ok(vv) => Ok((kv, vv)),
            },
        },
        _ => Err(diag(DiagKind::MalformedShape, key, path, Some(n), Seq::empty())),
    }
}

/// The outcomes of parsing each element of a sequence.
pub open spec fn element_results(
    seq_kind: &FieldKind,
    ch: Seq<NodeV>,
    key: Seq<char>,
    path: Seq<char>,
) -> Seq<
    Result<ValueV, DiagV>,
>
    decreases seq_kind, 0nat,
{
    match seq_kind {
        FieldKind::Sequence(inner) => Seq::new(ch.len(), |i: int| node_result(inner, ch[i], key, path)),
        _ => Seq::empty(),
    }
}

/// The outcomes of parsing each entry of a mapping.
pub open spec fn entry_results(
    key_kind: &FieldKind,
    val_kind: &FieldKind,
    ch: Seq<NodeV>,
    key: Seq<char>,
    path: Seq<char>,
) -> Seq<Result<(ValueV, ValueV), DiagV>> {
    Seq::new(ch.len(), |i: int| entry_result(key_kind, val_kind, ch[i], key, path))
}

/// The outcomes of resolving each field of a record, paired with the field names.
pub open spec fn field_results(ns: Seq<NodeV>, spec: &RecordSpec) -> Seq<
    Result<(Seq<char>, ValueV), DiagV>,
>
    decreases spec, 0nat,
{
    Seq::new(
        spec.fields.len() as nat,
        |j: int|
            if 0 <= j < spec.fields.len() {
                match field_result(ns, &spec.fields[j], spec.declared_path@) {
                    Ok(v) => Ok((spec.fields[j].field_name@, v)),
                    Err(e) => Err(e),
                }
            } else {
                Err(diag(DiagKind::MalformedShape, Seq::empty(), Seq::empty(), None, Seq::empty()))
            },
    )
}

/// The outcome of parsing a node for a field of the given kind and key.
pub open spec fn node_result(kind: &FieldKind, n: NodeV, key: Seq<char>, path: Seq<char>) -> Result<
    ValueV,
    DiagV,
>
    decreases kind, 1nat,
{
    match kind {
        FieldKind::Optional(inner) => node_result(inner, n, key, path),
        FieldKind::Nested(sub) => match n {
            NodeV::List(_, ch) => record_result(ch, sub),
            _ => Err(diag(DiagKind::MalformedShape, key, path, Some(n), Seq::empty())),
        },
        FieldKind::Sequence(inner) => match n {
            NodeV::List(_, ch) => match collect(element_results(kind, ch, key, path)) {
                Ok(vs) => Ok(ValueV::List(vs)),
                Err(e) => Err(e),
            },
            _ => Err(diag(DiagKind::MalformedShape, key, path, Some(n), Seq::empty())),
        },
        FieldKind::Mapping(kk, vk) => match n {
            NodeV::List(_, ch) => match collect(entry_results(kk, vk, ch, key, path)) {
                Ok(es) => Ok(ValueV::Mapping(insert_all(es))),
                Err(e) => Err(e),
            },
            _ => Err(diag(DiagKind::MalformedShape, key, path, Some(n), Seq::empty())),
        },
        _ => match n {
            NodeV::NameValue(_, l) => match literal_value(kind, l) {
                Ok(v) => Ok(v),
                Err(k) => Err(literal_diag(k, kind, key, path, Some(n))),
            },
            NodeV::Lit(l) => match literal_value(kind, l) {
                Ok(v) => Ok(v),
                Err(k) => Err(literal_diag(k, kind, key, path, Some(n))),
            },
            _ => Err(diag(DiagKind::MalformedShape, key, path, Some(n), Seq::empty())),
        },
    }
}

/// The outcome of resolving one field of a record against the record's nodes.
pub open spec fn field_result(ns: Seq<NodeV>, f: &FieldSpec, path: Seq<char>) -> Result<
    ValueV,
    DiagV,
>
    decreases f, 0nat,
{
    match find_node(ns, f.key()) {
        Some(n) => node_result(&f.kind, n, f.key(), path),
        None => match f.default {
            Some(d) => match literal_value(&f.kind, d@) {
                Ok(v) => Ok(v),
                Err(k) => Err(literal_diag(k, &f.kind, f.key(), path, None)),
            },
            None => if f.kind is Optional {
                Ok(ValueV::Missing)
            } else {
                Err(diag(DiagKind::MissingRequiredField, f.key(), path, None, Seq::empty()))
            },
        },
    }
}

/// The outcome of parsing a node list against a record schema.
pub open spec fn record_result(ns: Seq<NodeV>, spec: &RecordSpec) -> Result<ValueV, DiagV>
    decreases spec, 1nat,
{
    match collect(field_results(ns, spec)) {
        Ok(fs) => Ok(ValueV::Record(fs)),
        Err(e) => Err(e),
    }
}

/// The model of a parse outcome.
pub open spec fn parsed_view(r: Result<Value, Diagnostic>) -> Result<ValueV, DiagV> {
    match r {
        Ok(v) => Ok(v.view_value()),
        Err(d) => Err(d@),
    }
}

/// Where a prefix of the outcomes already fails, the whole fails in the same way.
pub proof fn lemma_collect_err<A, E>(rs: Seq<Result<A, E>>, k: int)
    requires
        0 <= k <= rs.len(),
        collect(rs.take(k)) is Err,
    ensures
        collect(rs) == collect(rs.take(k)),
    decreases rs.len(),
{
    if k == rs.len() {
        assert(rs.take(k) =~= rs);
    } else {
        assert(rs.drop_last().take(k) =~= rs.take(k));
        lemma_collect_err(rs.drop_last(), k);
    }
}

/// One more outcome taken into a prefix.
pub proof fn lemma_collect_step<A, E>(rs: Seq<Result<A, E>>, k: int)
    requires
        0 <= k < rs.len(),
    ensures
        collect(rs.take(k + 1)) == match collect(rs.take(k)) {
            Err(e) => Err(e),
            Ok(vs) => match rs[k] {
                Err(e) => Err(e),
                Ok(v) => Ok(vs.push(v)),
            },
        },
{
    assert(rs.take(k + 1).drop_last() =~= rs.take(k));
}

fn make_diag(kind: DiagKind, key: &String, path: &String, node: Option<&MetaNode>) -> (r: Diagnostic)
    ensures
        r@ == diag(
            kind,
            key@,
            path@,
            match node {
                Some(n) => Some(n.view_node()),
                None => None,
            },
            Seq::empty(),
        ),
{
    let node = match node {
        Some(n) => Some(n.copy()),
        None => None,
    };
    let r = Diagnostic { kind, key: key.clone(), path: path.clone(), node, allowed: Vec::new() };
    assert(r@.allowed =~= Seq::<Seq<char>>::empty());
    r
}

/// The variant names that a field of the given kind accepts.
pub fn allowed_list(kind: &FieldKind) -> (r: Vec<String>)
    ensures
        Seq::new(r.len() as nat, |i: int| r@[i]@) == allowed_of(kind),
    decreases kind,
{
    match kind {
        FieldKind::Optional(inner) => allowed_list(inner),
        FieldKind::EnumValue(e) => {
            let mut out: Vec<String> = Vec::new();
            let mut i: usize = 0;
            while i < e.variants.len()
                invariant
                    0 <= i <= e.variants.len(),
                    out.len() == i,
                    forall|j: int| 0 <= j < i ==> (#[trigger] out@[j])@ == e.variants@[j]@,
                decreases e.variants.len() - i,
            {
                out.push(e.variants[i].clone());
                i += 1;
            }
            assert(Seq::new(out.len() as nat, |i: int| out@[i]@) =~= allowed_of(kind));
            out
        },
        _ => {
            let out: Vec<String> = Vec::new();
            assert(Seq::new(out.len() as nat, |i: int| out@[i]@) =~= allowed_of(kind));
            out
        },
    }
}

fn literal_error(
    k: DiagKind,
    kind: &FieldKind,
    key: &String,
    path: &String,
    node: Option<&MetaNode>,
) -> (r: Diagnostic)
    ensures
        r@ == literal_diag(
            k,
            kind,
            key@,
            path@,
            match node {
                Some(n) => Some(n.view_node()),
                None => None,
            },
        ),
{
    let node = match node {
        Some(n) => Some(n.copy()),
        None => None,
    };
    let allowed = if let DiagKind::UnknownVariant = k {
        allowed_list(kind)
    } else {
        Vec::new()
    };
    let r = Diagnostic { kind: k, key: key.clone(), path: path.clone(), node, allowed };
    assert(r@.allowed =~= literal_diag(k, kind, key@, path@, r@.node).allowed);
    r
}

fn find_node_index(ns: &Vec<MetaNode>, key: &String) -> (r: Option<usize>)
    ensures
        match r {
            Some(i) => i < ns.len() && find_node(nodes_view(ns@), key@) == Some(ns@[i as int].view_node()),
            None => find_node(nodes_view(ns@), key@) is None,
        },
{
    let ghost all = nodes_view(ns@);
    let mut i: usize = 0;
    assert(all.skip(0) =~= all);
    while i < ns.len()
        invariant
            0 <= i <= ns.len(),
            all == nodes_view(ns@),
            find_node(all, key@) == find_node(all.skip(i as int), key@),
        decreases ns.len() - i,
    {
        let hit = match &ns[i] {
            MetaNode::Path(n) => *n == *key,
            MetaNode::NameValue(n, _) => *n == *key,
            MetaNode::List(n, _) => *n == *key,
            MetaNode::Lit(_) => false,
        };
        assert(all.skip(i as int)[0] == ns@[i as int].view_node());
        if hit {
            return Some(i);
        }
        assert(all.skip(i as int).skip(1) =~= all.skip(i + 1));
        i += 1;
    }
    None
}

/// The models of mapping entries.
pub open spec fn entries_view(es: Seq<MapEntry>) -> Seq<(ValueV, ValueV)> {
    Seq::new(es.len(), |i: int| (es[i].key.view_value(), es[i].value.view_value()))
}

/// Whether a value is of the forms that a single literal converts to.
pub open spec fn is_literal_form(v: ValueV) -> bool {
    v is Lit || v is Variant
}

/// A literal converts to a literal or a variant name.
pub proof fn lemma_literal_value_form(kind: &FieldKind, l: LiteralV)
    ensures
        literal_value(kind, l) matches Ok(v) ==> is_literal_form(v),
    decreases kind,
{
    if let FieldKind::Optional(inner) = kind {
        lemma_literal_value_form(inner, l);
    }
}

fn literal_eq(a: &Literal, b: &Literal) -> (r: bool)
    ensures
        r == (a@ == b@),
{
    match (a, b) {
        (Literal::Str(x), Literal::Str(y)) => *x == *y,
        (Literal::Int(x, xt), Literal::Int(y, yt)) => *x == *y && *xt == *yt,
        (Literal::Float(x, xt), Literal::Float(y, yt)) => *x == *y && *xt == *yt,
        (Literal::Bool(x), Literal::Bool(y)) => *x == *y,
        (Literal::Ident(x), Literal::Ident(y)) => *x == *y,
        _ => false,
    }
}

fn key_eq(a: &Value, b: &Value) -> (r: bool)
    requires
        is_literal_form(a.view_value()),
        is_literal_form(b.view_value()),
    ensures
        r == (a.view_value() == b.view_value()),
{
    match (a, b) {
        (Value::Lit(x), Value::Lit(y)) => literal_eq(x, y),
        (Value::Variant(x), Value::Variant(y)) => *x == *y,
        _ => false,
    }
}

fn upsert_entry(es: &mut Vec<MapEntry>, e: MapEntry)
    requires
        keys_distinct(entries_view(old(es)@)),
        forall|i: int| 0 <= i < old(es)@.len() ==> is_literal_form(#[trigger] old(es)@[i].key.view_value()),
        is_literal_form(e.key.view_value()),
    ensures
        entries_view(final(es)@) == upsert(entries_view(old(es)@), (e.key.view_value(), e.value.view_value())),
        keys_distinct(entries_view(final(es)@)),
        forall|i: int| 0 <= i < final(es)@.len() ==> is_literal_form(#[trigger] final(es)@[i].key.view_value()),
{
    let ghost old_v = entries_view(es@);
    let ghost ev = (e.key.view_value(), e.value.view_value());
    let mut i: usize = 0;
    while i < es.len()
        invariant
            0 <= i <= es.len(),
            es@ == old(es)@,
            old_v == entries_view(es@),
            keys_distinct(old_v),
            forall|j: int| 0 <= j < es@.len() ==> is_literal_form(#[trigger] es@[j].key.view_value()),
            is_literal_form(ev.0),
            ev == (e.key.view_value(), e.value.view_value()),
            forall|j: int| 0 <= j < i ==> (#[trigger] old_v[j]).0 != ev.0,
        decreases es.len() - i,
    {
        if key_eq(&es[i].key, &e.key) {
            assert(old_v[i as int].0 == ev.0);
            assert(has_key(old_v, ev.0));
            assert(i == choose|c: int| 0 <= c < old_v.len() && (#[trigger] old_v[c]).0 == ev.0);
            es.set(i, e);
            assert(entries_view(es@) =~= old_v.update(i as int, ev));
            return;
        }
        i += 1;
    }
    assert(!has_key(old_v, ev.0));
    es.push(e);
    assert(entries_view(es@) =~= old_v.push(ev));
}

fn parse_entry(
    key_kind: &FieldKind,
    val_kind: &FieldKind,
    n: &MetaNode,
    key: &String,
    path: &String,
) -> (r: Result<MapEntry, Diagnostic>)
    ensures
        match r {
            Ok(e) => entry_result(key_kind, val_kind, n.view_node(), key@, path@) == Ok::<
                (ValueV, ValueV),
                DiagV,
            >((e.key.view_value(), e.value.view_value())),
            Err(d) => entry_result(key_kind, val_kind, n.view_node(), key@, path@) == Err::<
                (ValueV, ValueV),
                DiagV,
            >(d@),
        },
{
    match n {
        MetaNode::NameValue(name, l) => {
            let name_lit = Literal::Str(name.clone());
            let k = match convert_literal(key_kind, &name_lit) {
                Ok(k) => k,
                Err(kind) => {
                    return Err(literal_error(kind, key_kind, key, path, Some(n)));
                },
            };
            let v = match convert_literal(val_kind, l) {
                Ok(v) => v,
                Err(kind) => {
                    return Err(literal_error(kind, val_kind, key, path, Some(n)));
                },
            };
            Ok(MapEntry { key: k, value: v })
        },
        _ => Err(make_diag(DiagKind::MalformedShape, key, path, Some(n))),
    }
}

/// Parses the node given for a field of the given kind and key.
pub fn parse_node(kind: &FieldKind, n: &MetaNode, key: &String, path: &String) -> (r: Result<
    Value,
    Diagnostic,
>)
    ensures
        parsed_view(r) == node_result(kind, n.view_node(), key@, path@),
    decreases kind,
{
    match kind {
        FieldKind::Optional(inner) => parse_node(inner, n, key, path),
        FieldKind::Nested(sub) => match n {
            MetaNode::List(_, ch) => {
                assert(nodes_view(ch@) =~= match n.view_node() {
                    NodeV::List(_, c) => c,
                    _ => Seq::empty(),
                });
                parse(ch, sub)
            },
            _ => Err(make_diag(DiagKind::MalformedShape, key, path, Some(n))),
        },
        FieldKind::Sequence(inner) => match n {
            MetaNode::List(_, ch) => {
                let ghost cv = nodes_view(ch@);
                assert(cv =~= match n.view_node() {
                    NodeV::List(_, c) => c,
                    _ => Seq::empty(),
                });
                let ghost rs = element_results(kind, cv, key@, path@);
                let mut out: Vec<Value> = Vec::new();
                let ghost mut taken: Seq<ValueV> = Seq::empty();
                let mut i: usize = 0;
                assert(rs.take(0) =~= Seq::<Result<ValueV, DiagV>>::empty());
                while i < ch.len()
                    invariant
                        0 <= i <= ch.len(),
                        *kind == FieldKind::Sequence(*inner),
                        cv == nodes_view(ch@),
                        match n.view_node() {
                            NodeV::List(_, c) => c == cv,
                            _ => false,
                        },
                        rs == element_results(kind, cv, key@, path@),
                        collect(rs.take(i as int)) == Ok::<Seq<ValueV>, DiagV>(taken),
                        taken.len() == out@.len(),
                        forall|j: int| 0 <= j < out@.len() ==> taken[j] == (#[trigger] out@[j]).view_value(),
                    decreases ch.len() - i,
                {
                    let v = parse_node(inner, &ch[i], key, path);
                    assert(rs[i as int] == node_result(inner, ch@[i as int].view_node(), key@, path@));
                    proof {
                        lemma_collect_step(rs, i as int);
                    }
                    match v {
                        Ok(v) => {
                            proof {
                                taken = taken.push(v.view_value());
                            }
                            out.push(v);
                        },
                        Err(d) => {
                            proof {
                                lemma_collect_err(rs, i + 1);
                            }
                            return Err(d);
                        },
                    }
                    i += 1;
                }
                assert(rs.take(i as int) =~= rs);
                let r = Value::List(out);
                proof {
                    if let ValueV::List(vs) = r.view_value() {
                        assert(vs =~= taken);
                    }
                }
                Ok(r)
            },
            _ => Err(make_diag(DiagKind::MalformedShape, key, path, Some(n))),
        },
        FieldKind::Mapping(kk, vk) => match n {
            MetaNode::List(_, ch) => {
                let ghost cv = nodes_view(ch@);
                assert(cv =~= match n.view_node() {
                    NodeV::List(_, c) => c,
                    _ => Seq::empty(),
                });
                let ghost rs = entry_results(kk, vk, cv, key@, path@);
                let mut out: Vec<MapEntry> = Vec::new();
                let ghost mut taken: Seq<(ValueV, ValueV)> = Seq::empty();
                let mut i: usize = 0;
                assert(rs.take(0) =~= Seq::<Result<(ValueV, ValueV), DiagV>>::empty());
                assert(entries_view(out@) =~= insert_all(taken));
                while i < ch.len()
                    invariant
                        0 <= i <= ch.len(),
                        *kind == FieldKind::Mapping(*kk, *vk),
                        cv == nodes_view(ch@),
                        match n.view_node() {
                            NodeV::List(_, c) => c == cv,
                            _ => false,
                        },
                        rs == entry_results(kk, vk, cv, key@, path@),
                        collect(rs.take(i as int)) == Ok::<Seq<(ValueV, ValueV)>, DiagV>(taken),
                        entries_view(out@) == insert_all(taken),
                        keys_distinct(entries_view(out@)),
                        forall|j: int| 0 <= j < out@.len() ==> is_literal_form(#[trigger] out@[j].key.view_value()),
                    decreases ch.len() - i,
                {
                    let e = parse_entry(kk, vk, &ch[i], key, path);
                    assert(rs[i as int] == entry_result(kk, vk, ch@[i as int].view_node(), key@, path@));
                    proof {
                        lemma_collect_step(rs, i as int);
                    }
                    match e {
                        Ok(e) => {
                            proof {
                                lemma_literal_value_form(kk, LiteralV::Str(
                                    match cv[i as int] {
                                        NodeV::NameValue(nm, _) => nm,
                                        _ => Seq::empty(),
                                    },
                                ));
                                let ev = (e.key.view_value(), e.value.view_value());
                                assert(taken.push(ev).drop_last() =~= taken);
                                taken = taken.push(ev);
                            }
                            upsert_entry(&mut out, e);
                        },
                        Err(d) => {
                            proof {
                                lemma_collect_err(rs, i + 1);
                            }
                            return Err(d);
                        },
                    }
                    i += 1;
                }
                assert(rs.take(i as int) =~= rs);
                let r = Value::Mapping(out);
                proof {
                    if let ValueV::Mapping(es) = r.view_value() {
                        assert(es =~= entries_view(out@));
                    }
                }
                Ok(r)
            },
            _ => Err(make_diag(DiagKind::MalformedShape, key, path, Some(n))),
        },
        _ => match n {
            MetaNode::NameValue(_, l) => match convert_literal(kind, l) {
                Ok(v) => Ok(v),
                Err(k) => Err(literal_error(k, kind, key, path, Some(n))),
            },
            MetaNode::Lit(l) => match convert_literal(kind, l) {
                Ok(v) => Ok(v),
                Err(k) => Err(literal_error(k, kind, key, path, Some(n))),
            },
            _ => Err(make_diag(DiagKind::MalformedShape, key, path, Some(n))),
        },
    }
}

/// Resolves one field of a record against the record's nodes.
pub fn parse_field(nodes: &Vec<MetaNode>, f: &FieldSpec, path: &String) -> (r: Result<
    Value,
    Diagnostic,
>)
    ensures
        parsed_view(r) == field_result(nodes_view(nodes@), f, path@),
    decreases f,
{
    let key = field_key(f);
    match find_node_index(nodes, key) {
        Some(i) => parse_node(&f.kind, &nodes[i], key, path),
        None => match &f.default {
            Some(d) => match convert_literal(&f.kind, d) {
                Ok(v) => Ok(v),
                Err(k) => Err(literal_error(k, &f.kind, key, path, None)),
            },
            None => if let FieldKind::Optional(_) = &f.kind {
                Ok(Value::Missing)
            } else {
                Err(make_diag(DiagKind::MissingRequiredField, key, path, None))
            },
        },
    }
}

/// Parses a node list against a record schema: each field in the schema's order, the first
/// failure ending the parse.
pub fn parse(nodes: &Vec<MetaNode>, spec: &RecordSpec) -> (r: Result<Value, Diagnostic>)
    ensures
        parsed_view(r) == record_result(nodes_view(nodes@), spec),
    decreases spec,
{
    let ghost nv = nodes_view(nodes@);
    let ghost rs = field_results(nv, spec);
    let mut out: Vec<FieldValue> = Vec::new();
    let ghost mut taken: Seq<(Seq<char>, ValueV)> = Seq::empty();
    let mut i: usize = 0;
    assert(rs.take(0) =~= Seq::<Result<(Seq<char>, ValueV), DiagV>>::empty());
    while i < spec.fields.len()
        invariant
            0 <= i <= spec.fields.len(),
            nv == nodes_view(nodes@),
            rs == field_results(nv, spec),
            collect(rs.take(i as int)) == Ok::<Seq<(Seq<char>, ValueV)>, DiagV>(taken),
            taken.len() == out@.len(),
            forall|j: int|
                0 <= j < out@.len() ==> taken[j] == ((#[trigger] out@[j]).name@, out@[j].value.view_value()),
        decreases spec.fields.len() - i,
    {
        assert(decreases_to!(spec => spec.fields[i as int]));
        let v = parse_field(nodes, &spec.fields[i], &spec.declared_path);
        proof {
            lemma_collect_step(rs, i as int);
        }
        match v {
            Ok(v) => {
                proof {
                    taken = taken.push((spec.fields[i as int].field_name@, v.view_value()));
                }
                out.push(FieldValue { name: spec.fields[i].field_name.clone(), value: v });
            },
            Err(d) => {
                proof {
                    lemma_collect_err(rs, i + 1);
                }
                return Err(d);
            },
        }
        i += 1;
    }
    assert(rs.take(i as int) =~= rs);
    let r = Value::Record(out);
    proof {
        if let ValueV::Record(fs) = r.view_value() {
            assert(fs =~= taken);
        }
    }
    Ok(r)
}

} // verus!
