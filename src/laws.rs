use vstd::prelude::*;
use crate::convert::{literal_value, text_of};
use crate::diag::{DiagKind, DiagV};
use crate::meta::{Literal, LiteralV, MetaNode, NodeV};
use crate::parse::{
    allowed_of, collect, diag, field_result, field_results, find_node, node_result, record_result,
};
use crate::schema::{FieldKind, FieldSpec, RecordSpec};
use crate::value::ValueV;

verus! {

/// Whether a field must be given: it is not optional and has no default.
pub open spec fn is_required(f: &FieldSpec) -> bool {
    f.default is None && !(f.kind is Optional)
}

/// Whether every default of a record's fields is a literal that the field's kind accepts.
pub open spec fn defaults_valid(spec: &RecordSpec) -> bool {
    forall|j: int|
        0 <= j < spec.fields.len() ==> match (#[trigger] spec.fields@[j]).default {
            Some(d) => literal_value(&spec.fields@[j].kind, d@) is Ok,
            None => true,
        }
}

/// Whether a node list supplies each field of a record: every field whose key has a node
/// parses from that node, and every field without one is optional or has a default.
pub open spec fn supplies_fields(ns: Seq<NodeV>, spec: &RecordSpec) -> bool {
    forall|j: int|
        0 <= j < spec.fields.len() ==> match find_node(ns, (#[trigger] spec.fields@[j]).key()) {
            Some(n) => node_result(
                &spec.fields@[j].kind,
                n,
                spec.fields@[j].key(),
                spec.declared_path@,
            ) is Ok,
            None => !is_required(&spec.fields@[j]),
        }
}

/// Where every outcome succeeds, the collected outcome is their values.
pub proof fn lemma_collect_all_ok<A, E>(rs: Seq<Result<A, E>>)
    requires
        forall|i: int| 0 <= i < rs.len() ==> (#[trigger] rs[i]) is Ok,
    ensures
        collect(rs) is Ok,
        collect(rs) matches Ok(vs) ==> vs.len() == rs.len() && forall|i: int|
            0 <= i < rs.len() ==> rs[i] == Ok::<A, E>(#[trigger] vs[i]),
    decreases rs.len(),
{
    if rs.len() > 0 {
        let p = rs.drop_last();
        assert forall|i: int| 0 <= i < p.len() implies (#[trigger] p[i]) is Ok by {
            assert(p[i] == rs[i]);
        }
        lemma_collect_all_ok(p);
        assert(rs[rs.len() - 1] is Ok);
        if let Ok(vs) = collect(p) {
            assert forall|i: int| 0 <= i < rs.len() implies rs[i] == Ok::<A, E>(
                #[trigger] collect(rs)->Ok_0[i],
            ) by {
                if i < p.len() {
                    assert(p[i] == rs[i]);
                }
            }
        }
    }
}

/// A successful collected outcome has one value per outcome, each from its outcome.
pub proof fn lemma_collect_ok<A, E>(rs: Seq<Result<A, E>>)
    requires
        collect(rs) is Ok,
    ensures
        collect(rs)->Ok_0.len() == rs.len(),
        forall|i: int| 0 <= i < rs.len() ==> rs[i] == Ok::<A, E>(#[trigger] collect(rs)->Ok_0[i]),
    decreases rs.len(),
{
    if rs.len() > 0 {
        let p = rs.drop_last();
        lemma_collect_ok(p);
        assert forall|i: int| 0 <= i < rs.len() implies rs[i] == Ok::<A, E>(
            #[trigger] collect(rs)->Ok_0[i],
        ) by {
            if i < p.len() {
                assert(p[i] == rs[i]);
                assert(collect(rs)->Ok_0[i] == collect(p)->Ok_0[i]);
            }
        }
    }
}

/// Where the first `j` outcomes succeed and the next fails, the collected outcome is that
/// failure.
pub proof fn lemma_collect_first_err<A, E>(rs: Seq<Result<A, E>>, j: int)
    requires
        0 <= j < rs.len(),
        forall|i: int| 0 <= i < j ==> (#[trigger] rs[i]) is Ok,
        rs[j] is Err,
    ensures
        collect(rs) == Err::<Seq<A>, E>(rs[j]->Err_0),
    decreases rs.len(),
{
    if j == rs.len() - 1 {
        let p = rs.drop_last();
        assert forall|i: int| 0 <= i < p.len() implies (#[trigger] p[i]) is Ok by {
            assert(p[i] == rs[i]);
        }
        lemma_collect_all_ok(p);
    } else {
        let p = rs.drop_last();
        assert forall|i: int| 0 <= i < j implies (#[trigger] p[i]) is Ok by {
            assert(p[i] == rs[i]);
        }
        assert(p[j] == rs[j]);
        lemma_collect_first_err(p, j);
    }
}

/// A record parses when its node list supplies each field.
///
/// For a schema whose defaults suit their fields, whenever every field that has a node
/// parses from it and every field without one is optional or has a default, parsing the
/// record succeeds.
pub proof fn lemma_required_field_totality(ns: Seq<NodeV>, spec: &RecordSpec)
    requires
        defaults_valid(spec),
        supplies_fields(ns, spec),
    ensures
        record_result(ns, spec) is Ok,
{
    let rs = field_results(ns, spec);
    assert forall|i: int| 0 <= i < rs.len() implies (#[trigger] rs[i]) is Ok by {
        let f = spec.fields@[i];
        assert(spec.fields@[i] == spec.fields[i]);
    }
    lemma_collect_all_ok(rs);
}

/// A field with a default, whose key has no node, takes the value of its default.
///
/// Where the default suits the field's kind (as every schema that `build_schema` makes
/// ensures), the field's entry is the default's value, and for a scalar field the default
/// literal itself; it never fails.
pub proof fn lemma_default_substitution(ns: Seq<NodeV>, f: &FieldSpec, d: Literal, path: Seq<char>)
    requires
        f.default == Some(d),
        literal_value(&f.kind, d@) is Ok,
        find_node(ns, f.key()) is None,
    ensures
        field_result(ns, f, path) == Ok::<ValueV, DiagV>(literal_value(&f.kind, d@)->Ok_0),
        f.kind is Scalar ==> field_result(ns, f, path) == Ok::<ValueV, DiagV>(ValueV::Lit(d@)),
{
}

/// The enumerated type of an enumerated field, or of an optional one.
pub open spec fn enum_of(kind: &FieldKind) -> Option<crate::schema::EnumType> {
    match kind {
        FieldKind::EnumValue(e) => Some(*e),
        FieldKind::Optional(inner) => match **inner {
            FieldKind::EnumValue(e) => Some(e),
            _ => None,
        },
        _ => None,
    }
}

/// An enumerated field accepts exactly the texts in its variant table.
///
/// A node whose text names a variant parses to that variant; any other text fails as an
/// unknown variant, naming the field's key and record path and listing the variant names.
pub proof fn lemma_enum_closure(
    kind: &FieldKind,
    name: Seq<char>,
    l: LiteralV,
    key: Seq<char>,
    path: Seq<char>,
)
    requires
        enum_of(kind) is Some,
        text_of(l) is Some,
    ensures
        ({
            let e = enum_of(kind)->Some_0;
            let t = text_of(l)->Some_0;
            let n = NodeV::NameValue(name, l);
            let r = node_result(kind, n, key, path);
            &&& e.has_variant(t) ==> r == Ok::<ValueV, DiagV>(ValueV::Variant(t))
            &&& !e.has_variant(t) ==> r == Err::<ValueV, DiagV>(
                diag(
                    DiagKind::UnknownVariant,
                    key,
                    path,
                    Some(n),
                    Seq::new(e.variants.len() as nat, |i: int| e.variants@[i]@),
                ),
            )
        }),
{
    let e = enum_of(kind)->Some_0;
    let listed = Seq::new(e.variants.len() as nat, |i: int| e.variants@[i]@);
    match kind {
        FieldKind::Optional(inner) => {
            let n = NodeV::NameValue(name, l);
            assert(**inner == FieldKind::EnumValue(e));
            assert(allowed_of(inner) =~= listed);
            assert(allowed_of(kind) == allowed_of(inner));
            assert(node_result(kind, n, key, path) == node_result(inner, n, key, path));
        },
        _ => {
            assert(allowed_of(kind) =~= listed);
        },
    }
}

/// The nodes of a list that do not carry the name `k`.
pub open spec fn without_name(ns: Seq<NodeV>, k: Seq<char>) -> Seq<NodeV>
    decreases ns.len(),
{
    if ns.len() == 0 {
        ns
    } else if MetaNode::name_of(ns[0]) == Some(k) {
        without_name(ns.skip(1), k)
    } else {
        seq![ns[0]] + without_name(ns.skip(1), k)
    }
}

/// Dropping the nodes named `k` leaves the lookup of any other key unchanged.
pub proof fn lemma_find_without_name(ns: Seq<NodeV>, k: Seq<char>, a: Seq<char>)
    requires
        a != k,
    ensures
        find_node(without_name(ns, k), a) == find_node(ns, a),
    decreases ns.len(),
{
    if ns.len() > 0 {
        lemma_find_without_name(ns.skip(1), k, a);
        if MetaNode::name_of(ns[0]) != Some(k) {
            let w = seq![ns[0]] + without_name(ns.skip(1), k);
            assert(w[0] == ns[0]);
            assert(w.skip(1) =~= without_name(ns.skip(1), k));
        }
    }
}

/// A field with an alias is looked up by its alias alone: nodes that carry its plain field
/// name never supply it.
///
/// Dropping every node named by the field's name leaves the field's outcome unchanged; so
/// where no node carries the alias, the field resolves as if no node were given at all.
pub proof fn lemma_alias_precedence(ns: Seq<NodeV>, f: &FieldSpec, a: String, path: Seq<char>)
    requires
        f.alias == Some(a),
        a@ != f.field_name@,
    ensures
        field_result(without_name(ns, f.field_name@), f, path) == field_result(ns, f, path),
        find_node(ns, a@) is None ==> field_result(ns, f, path) == field_result(
            Seq::empty(),
            f,
            path,
        ),
{
    lemma_find_without_name(ns, f.field_name@, a@);
    assert(find_node(Seq::empty(), a@) is None);
}

/// The same at the level of a whole record: where no field's key is `k`, dropping the nodes
/// named `k` leaves the parse unchanged. In particular, for a field with an alias whose
/// plain name is no field's key, nodes named by that plain name are ignored.
pub proof fn lemma_alias_precedence_record(ns: Seq<NodeV>, spec: &RecordSpec, k: Seq<char>)
    requires
        forall|j: int| 0 <= j < spec.fields.len() ==> (#[trigger] spec.fields@[j]).key() != k,
    ensures
        record_result(without_name(ns, k), spec) == record_result(ns, spec),
{
    let rs = field_results(ns, spec);
    let rs2 = field_results(without_name(ns, k), spec);
    assert forall|j: int| 0 <= j < rs.len() implies #[trigger] rs2[j] == rs[j] by {
        assert(spec.fields@[j] == spec.fields[j]);
        lemma_find_without_name(ns, k, spec.fields@[j].key());
    }
    assert(rs2 =~= rs);
}

/// Removing a node of another name leaves the lookup of a key unchanged.
pub proof fn lemma_find_node_remove(ns: Seq<NodeV>, i: int, k: Seq<char>)
    requires
        0 <= i < ns.len(),
        MetaNode::name_of(ns[i]) != Some(k),
    ensures
        find_node(ns.remove(i), k) == find_node(ns, k),
    decreases i,
{
    let r = ns.remove(i);
    if i == 0 {
        assert(r =~= ns.skip(1));
    } else {
        assert(r[0] == ns[0]);
        if MetaNode::name_of(ns[0]) != Some(k) {
            assert(r.skip(1) =~= ns.skip(1).remove(i - 1));
            lemma_find_node_remove(ns.skip(1), i - 1, k);
        }
    }
}

/// A key that no node carries is not found.
pub proof fn lemma_find_node_absent(ns: Seq<NodeV>, k: Seq<char>)
    requires
        forall|m: int| 0 <= m < ns.len() ==> MetaNode::name_of(#[trigger] ns[m]) != Some(k),
    ensures
        find_node(ns, k) is None,
    decreases ns.len(),
{
    if ns.len() > 0 {
        let t = ns.skip(1);
        assert forall|m: int| 0 <= m < t.len() implies MetaNode::name_of(#[trigger] t[m]) != Some(k) by {
            assert(t[m] == ns[m + 1]);
        }
        lemma_find_node_absent(t, k);
    }
}

/// Where outcome `j` fails, some outcome at or before `j` is the first failure.
pub proof fn lemma_first_err<A, E>(rs: Seq<Result<A, E>>, j: int) -> (m: int)
    requires
        0 <= j < rs.len(),
        rs[j] is Err,
    ensures
        0 <= m <= j,
        rs[m] is Err,
        forall|i: int| 0 <= i < m ==> (#[trigger] rs[i]) is Ok,
    decreases j,
{
    if exists|i: int| 0 <= i < j && (#[trigger] rs[i]) is Err {
        let i = choose|i: int| 0 <= i < j && (#[trigger] rs[i]) is Err;
        lemma_first_err(rs, i)
    } else {
        j
    }
}

/// Removing the one node of a required field makes the parse fail on that field.
///
/// For a schema whose defaults suit their fields: where a node list parses and a required
/// field's key is carried by exactly one node, the list without that node fails as a missing
/// field, naming the field's key and the record's path.
pub proof fn lemma_missing_required_fails(ns: Seq<NodeV>, spec: &RecordSpec, j: int, i: int)
    requires
        defaults_valid(spec),
        record_result(ns, spec) is Ok,
        0 <= j < spec.fields.len(),
        is_required(&spec.fields@[j]),
        0 <= i < ns.len(),
        MetaNode::name_of(ns[i]) == Some(spec.fields@[j].key()),
        forall|m: int|
            0 <= m < ns.len() && m != i ==> MetaNode::name_of(#[trigger] ns[m]) != Some(
                spec.fields@[j].key(),
            ),
    ensures
        record_result(ns.remove(i), spec) == Err::<ValueV, DiagV>(
            diag(
                DiagKind::MissingRequiredField,
                spec.fields@[j].key(),
                spec.declared_path@,
                None,
                Seq::empty(),
            ),
        ),
{
    let k = spec.fields@[j].key();
    let expected = diag(DiagKind::MissingRequiredField, k, spec.declared_path@, None, Seq::empty());
    let ns2 = ns.remove(i);
    let rs = field_results(ns, spec);
    let rs2 = field_results(ns2, spec);
    assert(collect(rs) is Ok);
    lemma_collect_ok(rs);
    assert forall|m: int| 0 <= m < ns2.len() implies MetaNode::name_of(#[trigger] ns2[m]) != Some(
        k,
    ) by {
        if m < i {
            assert(ns2[m] == ns[m]);
        } else {
            assert(ns2[m] == ns[m + 1]);
        }
    }
    lemma_find_node_absent(ns2, k);
    assert(spec.fields@[j] == spec.fields[j]);
    assert(rs2[j] is Err);
    let m = lemma_first_err(rs2, j);
    assert(spec.fields@[m] == spec.fields[m]);
    if spec.fields@[m].key() != k {
        lemma_find_node_remove(ns, i, spec.fields@[m].key());
        let _ = collect(rs)->Ok_0[m];
        assert(rs[m] is Ok);
        assert(false);
    }
    assert(rs2[m] == Err::<(Seq<char>, ValueV), DiagV>(expected));
    lemma_collect_first_err(rs2, m);
}

} // verus!
