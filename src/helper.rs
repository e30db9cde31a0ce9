use vstd::prelude::*;
use crate::convert::{int_literal_value, int_text_value};
use crate::diag::{DiagKind, DiagV, Diagnostic};
use crate::meta::{Literal, LiteralV, MetaNode, NodeV};
use crate::schema::ScalarType;

verus! {

/// The diagnostic for a literal of the wrong form given for `path`: it names `path` as its key,
/// carries the node `path = lit`, and has no record path and no variant list.
pub open spec fn literal_mismatch(kind: DiagKind, lit: LiteralV, path: Seq<char>) -> DiagV {
    DiagV {
        kind,
        key: path,
        path: Seq::empty(),
        node: Some(NodeV::NameValue(path, lit)),
        allowed: Seq::empty(),
    }
}

fn literal_error(kind: DiagKind, lit: &Literal, path: &String) -> (r: Diagnostic)
    ensures
        r@ == literal_mismatch(kind, lit@, path@),
{
    let r = Diagnostic {
        kind,
        key: path.clone(),
        path: String::new(),
        node: Some(MetaNode::NameValue(path.clone(), lit.copy())),
        allowed: Vec::new(),
    };
    assert(r@.allowed =~= Seq::<Seq<char>>::empty());
    r
}

/// The text of a string literal given for `path`.
pub fn get_lit_str(lit: &Literal, path: &String) -> (r: Result<String, Diagnostic>)
    ensures
        match lit@ {
            LiteralV::Str(s) => r matches Ok(t) && t@ == s,
            _ => r matches Err(d) && d@ == literal_mismatch(DiagKind::TypeMismatch, lit@, path@),
        },
{
    match lit {
        Literal::Str(s) => Ok(s.clone()),
        _ => Err(literal_error(DiagKind::TypeMismatch, lit, path)),
    }
}

/// The text of a string, integer, float or boolean literal given for `path`: a string's
/// value, a number as written in the source.
pub fn get_lit_as_string(lit: &Literal, path: &String) -> (r: Result<String, Diagnostic>)
    ensures
        match lit@ {
            LiteralV::Str(s) => r matches Ok(t) && t@ == s,
            LiteralV::Int(_, src) => r matches Ok(t) && t@ == src,
            LiteralV::Float(_, src) => r matches Ok(t) && t@ == src,
            LiteralV::Bool(b) => r matches Ok(t) && t@ == (if b {
                "true"@
            } else {
                "false"@
            }),
            LiteralV::Ident(_) => r matches Err(d) && d@ == literal_mismatch(
                DiagKind::TypeMismatch,
                lit@,
                path@,
            ),
        },
{
    match lit {
        Literal::Str(s) => Ok(s.clone()),
        Literal::Int(_, src) => Ok(src.clone()),
        Literal::Float(_, src) => Ok(src.clone()),
        Literal::Bool(b) => if *b {
            Ok("true".to_owned())
        } else {
            Ok("false".to_owned())
        },
        Literal::Ident(_) => Err(literal_error(DiagKind::TypeMismatch, lit, path)),
    }
}

/// The value of an integer literal given for `path`, read as a value of the integer type `t`.
pub fn get_lit_int(lit: &Literal, t: ScalarType, path: &String) -> (r: Result<i128, Diagnostic>)
    requires
        t.is_integer(),
    ensures
        match lit@ {
            LiteralV::Int(s, _) => match int_text_value(s) {
                Some(v) => if t.min_value() <= v <= t.max_value() {
                    r matches Ok(x) && x == v
                } else {
                    r matches Err(d) && d@ == literal_mismatch(
                        DiagKind::IntegerOutOfRange,
                        lit@,
                        path@,
                    )
                },
                None => r matches Err(d) && d@ == literal_mismatch(
                    DiagKind::TypeMismatch,
                    lit@,
                    path@,
                ),
            },
            _ => r matches Err(d) && d@ == literal_mismatch(DiagKind::TypeMismatch, lit@, path@),
        },
{
    match lit {
        Literal::Int(s, _) => match int_literal_value(s, t) {
            Ok(v) => Ok(v),
            Err(k) => Err(literal_error(k, lit, path)),
        },
        _ => Err(literal_error(DiagKind::TypeMismatch, lit, path)),
    }
}

/// The base-10 text of a float literal given for `path`.
pub fn get_lit_float(lit: &Literal, path: &String) -> (r: Result<String, Diagnostic>)
    ensures
        match lit@ {
            LiteralV::Float(s, _) => r matches Ok(t) && t@ == s,
            _ => r matches Err(d) && d@ == literal_mismatch(DiagKind::TypeMismatch, lit@, path@),
        },
{
    match lit {
        Literal::Float(s, _) => Ok(s.clone()),
        _ => Err(literal_error(DiagKind::TypeMismatch, lit, path)),
    }
}

/// The value of a boolean literal given for `path`.
pub fn get_lit_bool(lit: &Literal, path: &String) -> (r: Result<bool, Diagnostic>)
    ensures
        match lit@ {
            LiteralV::Bool(b) => r == Ok::<bool, Diagnostic>(b),
            _ => r matches Err(d) && d@ == literal_mismatch(DiagKind::TypeMismatch, lit@, path@),
        },
{
    match lit {
        Literal::Bool(b) => Ok(*b),
        _ => Err(literal_error(DiagKind::TypeMismatch, lit, path)),
    }
}

} // verus!
