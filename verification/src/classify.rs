//! The type classifier: a total map from a native type expression to the
//! marshalling category that decides which extraction and conversion code a
//! trampoline embeds.
//!
//! Policy, in priority order: exact match against the fixed-width integer
//! and float names gives `Integer` or `Float`; exact match against the
//! boolean name gives `Boolean`; textual-string types (owned or borrowed)
//! give `Text`; anything else falls back to a 64-bit signed `Integer` used
//! as a numeric cast target.  The fallback makes classification total, so
//! lenient generation never fails on a type expression; all remaining
//! type errors surface as runtime tag or shape checks.  Callers that
//! prefer a generation-time diagnostic over the silent fallback use the
//! strict mode, which rejects whatever [`is_recognized_name`] refuses.
//!
//! Every expression is stripped of ASCII whitespace at both ends before
//! matching, so the spacing that token rendering introduces (`" f32 "`)
//! does not change its classification.  The byte-level `slice_` forms
//! match exactly, without trimming.

use vstd::prelude::*;
use vstd::string::StringSliceAdditionalSpecFns;

use crate::bytes::{eq_lit, trim_bytes, trimmed};
use crate::model::TypeCategory;

verus! {

/// Does the expression name one of the fixed-width integer or float types?
pub open spec fn is_number_name(t: Seq<u8>) -> bool {
    ||| t == "i8".spec_bytes()
    ||| t == "i16".spec_bytes()
    ||| t == "i32".spec_bytes()
    ||| t == "i64".spec_bytes()
    ||| t == "i128".spec_bytes()
    ||| t == "isize".spec_bytes()
    ||| t == "u8".spec_bytes()
    ||| t == "u16".spec_bytes()
    ||| t == "u32".spec_bytes()
    ||| t == "u64".spec_bytes()
    ||| t == "u128".spec_bytes()
    ||| t == "usize".spec_bytes()
    ||| t == "f32".spec_bytes()
    ||| t == "f64".spec_bytes()
}

/// The bytes of the borrowed-string token.
pub open spec fn str_token() -> Seq<u8> {
    seq!['s' as u8, 't' as u8, 'r' as u8]
}

/// Is the byte part of an identifier?  Used to tell the bare token `str`
/// at the end of an expression from an identifier that merely ends in
/// those letters.
pub open spec fn is_ident_byte(b: u8) -> bool {
    ||| 'a' as u8 <= b <= 'z' as u8
    ||| 'A' as u8 <= b <= 'Z' as u8
    ||| '0' as u8 <= b <= '9' as u8
    ||| b == '_' as u8
}

/// Does the expression name a textual-string type, owned or borrowed?
/// Exactly the owned `String`, or an expression ending in the bare token
/// `str`: the slice type itself, or a reference form such as `& str` or
/// `& 'a str`.  An identifier that merely ends in the letters `str`
/// (`Abstract`) is not a string type.
pub open spec fn is_string_name(t: Seq<u8>) -> bool {
    ||| t == "String".spec_bytes()
    ||| (t.len() >= 3 && t.subrange(t.len() - 3, t.len() as int) == str_token() && (t.len() == 3
        || !is_ident_byte(t[t.len() - 4])))
}

/// The category a recognized number name maps to: its width and, for
/// integers, its signedness.  Pointer-sized integers are modelled with the
/// 64-bit width.
pub open spec fn number_category(t: Seq<u8>) -> TypeCategory {
    if t == "i8".spec_bytes() {
        TypeCategory::Integer { bits: 8, signed: true }
    } else if t == "i16".spec_bytes() {
        TypeCategory::Integer { bits: 16, signed: true }
    } else if t == "i32".spec_bytes() {
        TypeCategory::Integer { bits: 32, signed: true }
    } else if t == "i64".spec_bytes() {
        TypeCategory::Integer { bits: 64, signed: true }
    } else if t == "i128".spec_bytes() {
        TypeCategory::Integer { bits: 128, signed: true }
    } else if t == "isize".spec_bytes() {
        TypeCategory::Integer { bits: 64, signed: true }
    } else if t == "u8".spec_bytes() {
        TypeCategory::Integer { bits: 8, signed: false }
    } else if t == "u16".spec_bytes() {
        TypeCategory::Integer { bits: 16, signed: false }
    } else if t == "u32".spec_bytes() {
        TypeCategory::Integer { bits: 32, signed: false }
    } else if t == "u64".spec_bytes() {
        TypeCategory::Integer { bits: 64, signed: false }
    } else if t == "u128".spec_bytes() {
        TypeCategory::Integer { bits: 128, signed: false }
    } else if t == "usize".spec_bytes() {
        TypeCategory::Integer { bits: 64, signed: false }
    } else if t == "f32".spec_bytes() {
        TypeCategory::Float { bits: 32 }
    } else {
        TypeCategory::Float { bits: 64 }
    }
}

/// The classification of an arbitrary native type expression, trimmed of
/// surrounding whitespace.  Total: unrecognized expressions fall back to
/// a 64-bit signed integer cast target.  Never `Opaque`.
pub open spec fn spec_classify(t: Seq<u8>) -> TypeCategory {
    let u = trimmed(t);
    if is_number_name(u) {
        number_category(u)
    } else if u == "bool".spec_bytes() {
        TypeCategory::Boolean
    } else if is_string_name(u) {
        TypeCategory::Text
    } else {
        TypeCategory::Integer { bits: 64, signed: true }
    }
}

/// The classification of a declared return type: `None` when no return
/// type is declared.
pub open spec fn spec_classify_ret(r: Option<Vec<u8>>) -> Option<TypeCategory> {
    match r {
        Some(t) => Some(spec_classify(t@)),
        None => None,
    }
}

/// Does the expression, trimmed of surrounding whitespace, name one of
/// the fixed-width integer or float types?
pub fn is_number_type(ty: &str) -> (r: bool)
    ensures
        r == is_number_name(trimmed(ty.spec_bytes())),
{
    let tt = trim_bytes(ty.as_bytes());
    slice_is_number(tt.as_slice())
}

/// Does the expression, trimmed of surrounding whitespace, name a
/// textual-string type, owned or borrowed?
pub fn is_string_type(ty: &str) -> (r: bool)
    ensures
        r == is_string_name(trimmed(ty.spec_bytes())),
{
    let tt = trim_bytes(ty.as_bytes());
    slice_is_string(tt.as_slice())
}

/// Byte-level exact match of the number names, without trimming.
pub fn slice_is_number(t: &[u8]) -> (r: bool)
    ensures
        r == is_number_name(t@),
{
    eq_lit(t, "i8") || eq_lit(t, "i16") || eq_lit(t, "i32") || eq_lit(t, "i64")
        || eq_lit(t, "i128") || eq_lit(t, "isize") || eq_lit(t, "u8") || eq_lit(t, "u16")
        || eq_lit(t, "u32") || eq_lit(t, "u64") || eq_lit(t, "u128") || eq_lit(t, "usize")
        || eq_lit(t, "f32") || eq_lit(t, "f64")
}

/// Byte-level exact match of the string types, without trimming.
pub fn slice_is_string(t: &[u8]) -> (r: bool)
    ensures
        r == is_string_name(t@),
{
    if eq_lit(t, "String") {
        return true;
    }
    let n: usize = t.len();
    if n < 3 {
        return false;
    }
    let tail_ok: bool = t[n - 3] == 's' as u8 && t[n - 2] == 't' as u8 && t[n - 1] == 'r' as u8;
    if !tail_ok {
        proof {
            if t@.subrange(n - 3, n as int) == str_token() {
                assert(t@.subrange(n - 3, n as int)[0] == t@[n - 3]);
                assert(t@.subrange(n - 3, n as int)[1] == t@[n - 2]);
                assert(t@.subrange(n - 3, n as int)[2] == t@[n - 1]);
            }
        }
        return false;
    }
    proof {
        assert(t@.subrange(n - 3, n as int) =~= str_token());
    }
    if n == 3 {
        true
    } else {
        let b: u8 = t[n - 4];
        !(b >= 'a' as u8 && b <= 'z' as u8 || b >= 'A' as u8 && b <= 'Z' as u8 || b >= '0' as u8
            && b <= '9' as u8 || b == '_' as u8)
    }
}

/// The category a recognized number name maps to; the width and signedness
/// here are the cast targets the trampolines narrow extracted numbers to.
/// The expression is trimmed first; unrecognized names fall back to the
/// double-precision float.
pub fn get_number_cast(t: &[u8]) -> (r: TypeCategory)
    ensures
        r == number_category(trimmed(t@)),
{
    let tt = trim_bytes(t);
    number_cast_exact(tt.as_slice())
}

/// The number-category table on an already-trimmed expression.
fn number_cast_exact(t: &[u8]) -> (r: TypeCategory)
    ensures
        r == number_category(t@),
{
    if eq_lit(t, "i8") {
        TypeCategory::Integer { bits: 8, signed: true }
    } else if eq_lit(t, "i16") {
        TypeCategory::Integer { bits: 16, signed: true }
    } else if eq_lit(t, "i32") {
        TypeCategory::Integer { bits: 32, signed: true }
    } else if eq_lit(t, "i64") {
        TypeCategory::Integer { bits: 64, signed: true }
    } else if eq_lit(t, "i128") {
        TypeCategory::Integer { bits: 128, signed: true }
    } else if eq_lit(t, "isize") {
        TypeCategory::Integer { bits: 64, signed: true }
    } else if eq_lit(t, "u8") {
        TypeCategory::Integer { bits: 8, signed: false }
    } else if eq_lit(t, "u16") {
        TypeCategory::Integer { bits: 16, signed: false }
    } else if eq_lit(t, "u32") {
        TypeCategory::Integer { bits: 32, signed: false }
    } else if eq_lit(t, "u64") {
        TypeCategory::Integer { bits: 64, signed: false }
    } else if eq_lit(t, "u128") {
        TypeCategory::Integer { bits: 128, signed: false }
    } else if eq_lit(t, "usize") {
        TypeCategory::Integer { bits: 64, signed: false }
    } else if eq_lit(t, "f32") {
        TypeCategory::Float { bits: 32 }
    } else {
        TypeCategory::Float { bits: 64 }
    }
}

/// Classify an arbitrary native type expression.
pub fn classify(t: &[u8]) -> (r: TypeCategory)
    ensures
        r == spec_classify(t@),
{
    let tt = trim_bytes(t);
    let u: &[u8] = tt.as_slice();
    if slice_is_number(u) {
        number_cast_exact(u)
    } else if eq_lit(u, "bool") {
        TypeCategory::Boolean
    } else if slice_is_string(u) {
        TypeCategory::Text
    } else {
        TypeCategory::Integer { bits: 64, signed: true }
    }
}

/// Does the expression, trimmed of surrounding whitespace, name a type
/// the classifier recognizes outright — a fixed-width number, the
/// boolean, or a textual string?  Anything else is served only by the
/// lenient fallback.
pub open spec fn is_recognized_name(t: Seq<u8>) -> bool {
    let u = trimmed(t);
    is_number_name(u) || u == "bool".spec_bytes() || is_string_name(u)
}

/// Does the expression name a recognized type?  The strict classification
/// mode rejects expressions for which this is false instead of falling
/// back to the numeric cast target.
pub fn is_recognized_type(t: &[u8]) -> (r: bool)
    ensures
        r == is_recognized_name(t@),
{
    let tt = trim_bytes(t);
    let u: &[u8] = tt.as_slice();
    slice_is_number(u) || eq_lit(u, "bool") || slice_is_string(u)
}

/// The classifier only produces well-formed, non-opaque categories.
pub proof fn lemma_classify_wf(t: Seq<u8>)
    ensures
        spec_classify(t).wf(),
        !(spec_classify(t) is Opaque),
{
}

} // verus!
