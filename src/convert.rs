use vstd::prelude::*;
use vstd::string::StrSliceExecFns;
use crate::diag::DiagKind;
use crate::meta::{Literal, LiteralV};
use crate::schema::{EnumType, FieldKind, ScalarType, kind_same};
use crate::value::{Value, ValueV};

verus! {

/// Whether `s` is a non-empty run of decimal digits.
pub open spec fn all_digits(s: Seq<char>) -> bool {
    s.len() > 0 && forall|i: int| 0 <= i < s.len() ==> 0x30 <= (#[trigger] s[i]) as u32 <= 0x39
}

/// The number that a run of decimal digits writes.
pub open spec fn digits_value(s: Seq<char>) -> int
    decreases s.len(),
{
    if s.len() == 0 {
        0
    } else {
        10 * digits_value(s.drop_last()) + (s.last() as u32 - 0x30)
    }
}

/// The integer that the text of an integer literal writes: digits, with an optional leading `-`.
pub open spec fn int_text_value(s: Seq<char>) -> Option<int> {
    if s.len() > 0 && s[0] == '-' {
        if all_digits(s.skip(1)) {
            Some(-digits_value(s.skip(1)))
        } else {
            None
        }
    } else if all_digits(s) {
        Some(digits_value(s))
    } else {
        None
    }
}

/// Whether a literal of the given form is accepted by a scalar type.
pub open spec fn scalar_accepts(t: ScalarType, l: LiteralV) -> Result<(), DiagKind> {
    match t {
        ScalarType::Text => if l is Str { Ok(()) } else { Err(DiagKind::TypeMismatch) },
        ScalarType::Bool => if l is Bool { Ok(()) } else { Err(DiagKind::TypeMismatch) },
        ScalarType::F32 | ScalarType::F64 => if l is Float {
            Ok(())
        } else {
            Err(DiagKind::TypeMismatch)
        },
        _ => match l {
            LiteralV::Int(s, _) => match int_text_value(s) {
                Some(v) => if t.min_value() <= v <= t.max_value() {
                    Ok(())
                } else {
                    Err(DiagKind::IntegerOutOfRange)
                },
                None => Err(DiagKind::TypeMismatch),
            },
            _ => Err(DiagKind::TypeMismatch),
        },
    }
}

/// The text of a textual literal (a string or a bare identifier).
pub open spec fn text_of(l: LiteralV) -> Option<Seq<char>> {
    match l {
        LiteralV::Str(s) => Some(s),
        LiteralV::Ident(s) => Some(s),
        _ => None,
    }
}

/// The value that a literal gives a field of the given kind.
pub open spec fn literal_value(kind: &FieldKind, l: LiteralV) -> Result<ValueV, DiagKind>
    decreases kind,
{
    match kind {
        FieldKind::Scalar(t) => match scalar_accepts(*t, l) {
            Ok(_) => Ok(ValueV::Lit(l)),
            Err(k) => Err(k),
        },
        FieldKind::Optional(inner) => literal_value(inner, l),
        FieldKind::EnumValue(e) => match text_of(l) {
            Some(t) => if e.has_variant(t) {
                Ok(ValueV::Variant(t))
            } else {
                Err(DiagKind::UnknownVariant)
            },
            None => Err(DiagKind::TypeMismatch),
        },
        _ => Err(DiagKind::MalformedShape),
    }
}

/// The model of a conversion's outcome.
pub open spec fn outcome_view(r: Result<Value, DiagKind>) -> Result<ValueV, DiagKind> {
    match r {
        Ok(v) => Ok(v.view_value()),
        Err(k) => Err(k),
    }
}

proof fn lemma_digits_prefix_le(s: Seq<char>, k: int)
    requires
        all_digits(s),
        0 <= k <= s.len(),
    ensures
        digits_value(s.subrange(0, k)) <= digits_value(s),
        0 <= digits_value(s),
    decreases s.len(),
{
    assert(0x30 <= s[s.len() - 1] as u32 <= 0x39);
    if s.len() == 1 {
        assert(s.drop_last() =~= Seq::<char>::empty());
        assert(digits_value(s.drop_last()) == 0);
        if k == 0 {
            assert(s.subrange(0, k) =~= Seq::<char>::empty());
        } else {
            assert(s.subrange(0, k) =~= s);
        }
    } else {
        let p = s.drop_last();
        assert(all_digits(p)) by {
            assert forall|i: int| 0 <= i < p.len() implies 0x30 <= (#[trigger] p[i]) as u32 <= 0x39 by {
                assert(p[i] == s[i]);
            }
        }
        assert(0x30 <= s[s.len() - 1] as u32 <= 0x39);
        if k == s.len() {
            assert(s.subrange(0, k) =~= s);
            lemma_digits_prefix_le(p, 0);
        } else {
            lemma_digits_prefix_le(p, k);
            assert(p.subrange(0, k) =~= s.subrange(0, k));
        }
    }
}

/// The bounds of an integer type, as exec values.
fn int_bounds(t: ScalarType) -> (r: (i128, i128))
    requires
        t.is_integer(),
    ensures
        r.0 as int == t.min_value(),
        r.1 as int == t.max_value(),
{
    match t {
        ScalarType::I8 => (-0x80, 0x7f),
        ScalarType::I16 => (-0x8000, 0x7fff),
        ScalarType::I32 => (-0x8000_0000, 0x7fff_ffff),
        ScalarType::I64 => (-0x8000_0000_0000_0000, 0x7fff_ffff_ffff_ffff),
        ScalarType::U8 => (0, 0xff),
        ScalarType::U16 => (0, 0xffff),
        ScalarType::U32 => (0, 0xffff_ffff),
        _ => (0, 0xffff_ffff_ffff_ffff),
    }
}

/// Reads the text of an integer literal as a value of an integer type.
pub fn int_literal_value(text: &String, t: ScalarType) -> (r: Result<i128, DiagKind>)
    requires
        t.is_integer(),
    ensures
        match r {
            Ok(v) => int_text_value(text@) == Some(v as int) && t.min_value() <= v <= t.max_value(),
            Err(k) => match int_text_value(text@) {
                None => k == DiagKind::TypeMismatch,
                Some(v) => k == DiagKind::IntegerOutOfRange && !(t.min_value() <= v
                    <= t.max_value()),
            },
        },
{
    let s = text.as_str();
    let n = s.unicode_len();
    let ghost cs = text@;
    let neg = n > 0 && s.get_char(0) == '-';
    let start: usize = if neg { 1 } else { 0 };
    let ghost ds = cs.subrange(start as int, cs.len() as int);
    assert(neg ==> ds =~= cs.skip(1));
    assert(!neg ==> ds =~= cs);
    if start >= n {
        assert(!all_digits(ds));
        return Err(DiagKind::TypeMismatch);
    }
    let mut i: usize = start;
    while i < n
        invariant
            start <= i <= n,
            n == cs.len(),
            s@ == cs,
            ds == cs.subrange(start as int, n as int),
            cs == text@,
            start == (if neg { 1usize } else { 0usize }),
            neg ==> ds == cs.skip(1) && cs[0] == '-',
            !neg ==> ds == cs && (cs.len() == 0 || cs[0] != '-'),
            forall|j: int| start <= j < i ==> 0x30 <= (#[trigger] cs[j]) as u32 <= 0x39,
        decreases n - i,
    {
        let c = s.get_char(i);
        if !(0x30 <= c as u32 && c as u32 <= 0x39) {
            assert(ds[i - start] == c);
            return Err(DiagKind::TypeMismatch);
        }
        i += 1;
    }
    assert(all_digits(ds)) by {
        assert forall|j: int| 0 <= j < ds.len() implies 0x30 <= (#[trigger] ds[j]) as u32 <= 0x39 by {
            assert(ds[j] == cs[start + j]);
        }
    }
    let (lo, hi) = int_bounds(t);
    let mut acc: u128 = 0;
    i = start;
    while i < n
        invariant
            start <= i <= n,
            n == cs.len(),
            s@ == cs,
            ds == cs.subrange(start as int, n as int),
            cs == text@,
            start == (if neg { 1usize } else { 0usize }),
            neg ==> ds == cs.skip(1) && cs[0] == '-',
            !neg ==> ds == cs && (cs.len() == 0 || cs[0] != '-'),
            all_digits(ds),
            acc as int == digits_value(ds.subrange(0, i - start)),
            acc <= 0x1_0000_0000_0000_0000,
        decreases n - i,
    {
        let c = s.get_char(i);
        assert(ds[i - start] == c);
        assert(0x30 <= ds[i - start] as u32 <= 0x39);
        let d = (c as u32 - 0x30) as u128;
        assert(ds.subrange(0, i + 1 - start).drop_last() =~= ds.subrange(0, i - start));
        let next = acc * 10 + d;
        if next > 0x1_0000_0000_0000_0000 {
            proof {
                let pre = ds.subrange(0, i + 1 - start);
                assert(pre.last() == c);
                assert(digits_value(pre) == 10 * digits_value(pre.drop_last()) + (c as u32 - 0x30));
                lemma_digits_prefix_le(ds, i + 1 - start);
                assert(digits_value(ds) > 0x1_0000_0000_0000_0000);
            }
            return Err(DiagKind::IntegerOutOfRange);
        }
        acc = next;
        i += 1;
    }
    assert(ds.subrange(0, n - start) =~= ds);
    let v: i128 = if neg { -(acc as i128) } else { acc as i128 };
    if lo <= v && v <= hi {
        Ok(v)
    } else {
        Err(DiagKind::IntegerOutOfRange)
    }
}

/// Whether `t` names one of the variants of `e`.
pub fn find_variant(e: &EnumType, t: &String) -> (r: bool)
    ensures
        r == e.has_variant(t@),
{
    let mut i: usize = 0;
    while i < e.variants.len()
        invariant
            0 <= i <= e.variants.len(),
            forall|j: int| 0 <= j < i ==> (#[trigger] e.variants@[j])@ != t@,
        decreases e.variants.len() - i,
    {
        if e.variants[i] == *t {
            return true;
        }
        i += 1;
    }
    false
}

/// Checks a literal against a scalar type.
pub fn check_scalar(t: ScalarType, l: &Literal) -> (r: Result<(), DiagKind>)
    ensures
        r == scalar_accepts(t, l@),
{
    match t {
        ScalarType::Text => if let Literal::Str(_) = l { Ok(()) } else { Err(DiagKind::TypeMismatch) },
        ScalarType::Bool => if let Literal::Bool(_) = l { Ok(()) } else { Err(DiagKind::TypeMismatch) },
        ScalarType::F32 | ScalarType::F64 => if let Literal::Float(..) = l {
            Ok(())
        } else {
            Err(DiagKind::TypeMismatch)
        },
        _ => match l {
            Literal::Int(s, _) => match int_literal_value(s, t) {
                Ok(_) => Ok(()),
                Err(k) => Err(k),
            },
            _ => Err(DiagKind::TypeMismatch),
        },
    }
}

/// Converts a literal into the value it gives a field of the given kind.
pub fn convert_literal(kind: &FieldKind, l: &Literal) -> (r: Result<Value, DiagKind>)
    ensures
        outcome_view(r) == literal_value(kind, l@),
    decreases kind,
{
    match kind {
        FieldKind::Scalar(t) => match check_scalar(*t, l) {
            Ok(_) => Ok(Value::Lit(l.copy())),
            Err(k) => Err(k),
        },
        FieldKind::Optional(inner) => convert_literal(inner, l),
        FieldKind::EnumValue(e) => {
            let text = match l {
                Literal::Str(s) => s,
                Literal::Ident(s) => s,
                _ => {
                    return Err(DiagKind::TypeMismatch);
                },
            };
            if find_variant(e, text) {
                Ok(Value::Variant(text.clone()))
            } else {
                Err(DiagKind::UnknownVariant)
            }
        },
        _ => Err(DiagKind::MalformedShape),
    }
}

/// Kinds of the same structure convert literals alike.
pub proof fn lemma_literal_value_same(a: &FieldKind, b: &FieldKind, l: LiteralV)
    requires
        kind_same(a, b),
    ensures
        literal_value(a, l) == literal_value(b, l),
    decreases a,
{
    match (a, b) {
        (FieldKind::Optional(x), FieldKind::Optional(y)) => lemma_literal_value_same(x, y, l),
        (FieldKind::EnumValue(x), FieldKind::EnumValue(y)) => {
            if let Some(t) = text_of(l) {
                if x.has_variant(t) {
                    let i = choose|i: int| 0 <= i < x.variants.len() && (#[trigger] x.variants@[i])@ == t;
                    assert(y.variants@[i]@ == t);
                }
                if y.has_variant(t) {
                    let i = choose|i: int| 0 <= i < y.variants.len() && (#[trigger] y.variants@[i])@ == t;
                    assert(x.variants@[i]@ == t);
                }
            }
        },
        _ => {},
    }
}

} // verus!
