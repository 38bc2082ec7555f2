//! The naming policy: deterministic derivation of the external name the
//! host runtime resolves each trampoline by.
//!
//! The scheme, bit for bit: `prefix + "_"` (only when the prefix is
//! non-empty), then for structure members `lowercase(structure) + "_"`,
//! then the member suffix (`new`, `delete`, `get_<field>`, `set_<field>`,
//! or the method name).  Free functions omit the structure segment.
//!
//! Model boundary: lowercasing is ASCII — the bytes `A`..`Z` map to
//! `a`..`z` and every other byte, multi-byte UTF-8 sequences included,
//! passes through unchanged.  For a structure name outside ASCII this
//! differs from a Unicode lowercasing, so such names derive different
//! external names than a Unicode-aware toolchain would; ASCII names (the
//! common case for identifiers) are unaffected.

use vstd::prelude::*;
use vstd::string::StringSliceAdditionalSpecFns;

use crate::bytes::{append_bytes, append_lit};
use crate::model::BindingUnit;

verus! {

/// ASCII lowercasing of one byte; bytes outside `A`..`Z` pass through.
pub open spec fn lower_byte(b: u8) -> u8 {
    if 'A' as u8 <= b <= 'Z' as u8 {
        (b + 32) as u8
    } else {
        b
    }
}

/// ASCII lowercasing of a byte string.
pub open spec fn lower_seq(s: Seq<u8>) -> Seq<u8> {
    s.map_values(|b: u8| lower_byte(b))
}

/// The separator between name segments.
pub open spec fn sep() -> Seq<u8> {
    seq!['_' as u8]
}

/// The prefix segment: empty for an empty prefix, `prefix + "_"` otherwise.
pub open spec fn prefix_seg(prefix: Seq<u8>) -> Seq<u8> {
    if prefix.len() == 0 {
        Seq::empty()
    } else {
        prefix + sep()
    }
}

/// External name of a free function: `<prefix_><function>`.
pub open spec fn function_ext_name(prefix: Seq<u8>, fname: Seq<u8>) -> Seq<u8> {
    prefix_seg(prefix) + fname
}

/// External name of a structure member:
/// `<prefix_><structure_lower>_<suffix>`.
pub open spec fn member_ext_name(prefix: Seq<u8>, sname: Seq<u8>, suffix: Seq<u8>) -> Seq<u8> {
    prefix_seg(prefix) + lower_seq(sname) + sep() + suffix
}

/// Suffix of a getter for the field named `fname`: `get_<field>`.
pub open spec fn getter_suffix(fname: Seq<u8>) -> Seq<u8> {
    "get_".spec_bytes() + fname
}

/// Suffix of a setter for the field named `fname`: `set_<field>`.
pub open spec fn setter_suffix(fname: Seq<u8>) -> Seq<u8> {
    "set_".spec_bytes() + fname
}

/// The runtime-visible type tag of the structure named `sname`: the
/// structure name as a null-terminated byte string.  Distinct structures
/// in a successfully generated unit have distinct names, hence distinct
/// tags.
pub open spec fn tag_of(sname: Seq<u8>) -> Seq<u8> {
    sname + seq![0u8]
}

/// ASCII lowercasing, executable form.
pub fn lower_bytes(s: &[u8]) -> (r: Vec<u8>)
    ensures
        r@ == lower_seq(s@),
{
    let n: usize = s.len();
    let mut r: Vec<u8> = Vec::new();
    let mut i: usize = 0;
    while i < n
        invariant
            n == s@.len(),
            i <= n,
            r@ == lower_seq(s@.subrange(0, i as int)),
        decreases n - i,
    {
        let b: u8 = s[i];
        let lb: u8 = if b >= 'A' as u8 && b <= 'Z' as u8 {
            b + 32
        } else {
            b
        };
        r.push(lb);
        proof {
            assert(lower_seq(s@.subrange(0, i as int)).push(lower_byte(s@[i as int]))
                =~= lower_seq(s@.subrange(0, i + 1)));
        }
        i += 1;
    }
    proof {
        assert(s@.subrange(0, n as int) =~= s@);
    }
    r
}

/// Start an external name with the prefix segment of `unit`.
pub fn begin_name(unit: &BindingUnit) -> (r: Vec<u8>)
    ensures
        r@ == prefix_seg(unit.spec_prefix()),
{
    let mut r: Vec<u8> = Vec::new();
    match &unit.prefix {
        Some(p) => {
            if p.len() > 0 {
                append_bytes(&mut r, p.as_slice());
                r.push('_' as u8);
                proof {
                    assert(r@ =~= prefix_seg(unit.spec_prefix()));
                }
            }
        },
        None => {},
    }
    r
}

/// Derive the external name of a free function.
pub fn make_function_name(unit: &BindingUnit, fname: &[u8]) -> (r: Vec<u8>)
    ensures
        r@ == function_ext_name(unit.spec_prefix(), fname@),
{
    let mut r = begin_name(unit);
    append_bytes(&mut r, fname);
    r
}

/// Derive `<prefix_><structure_lower>_`, the stem every member name of the
/// structure named `sname` starts with.
pub fn member_stem(unit: &BindingUnit, sname: &[u8]) -> (r: Vec<u8>)
    ensures
        r@ == prefix_seg(unit.spec_prefix()) + lower_seq(sname@) + sep(),
{
    let mut r = begin_name(unit);
    let low = lower_bytes(sname);
    append_bytes(&mut r, low.as_slice());
    r.push('_' as u8);
    proof {
        assert(r@ =~= prefix_seg(unit.spec_prefix()) + lower_seq(sname@) + sep());
    }
    r
}

/// Derive the external name of a structure member from its suffix.
pub fn make_member_name(unit: &BindingUnit, sname: &[u8], suffix: &[u8]) -> (r: Vec<u8>)
    ensures
        r@ == member_ext_name(unit.spec_prefix(), sname@, suffix@),
{
    let mut r = member_stem(unit, sname);
    append_bytes(&mut r, suffix);
    proof {
        assert(r@ =~= member_ext_name(unit.spec_prefix(), sname@, suffix@));
    }
    r
}

/// Derive the external name of a field accessor: `which` is the `get_` or
/// `set_` literal, followed by the field name.
pub fn make_accessor_name(unit: &BindingUnit, sname: &[u8], which: &str, fname: &[u8]) -> (r:
    Vec<u8>)
    ensures
        r@ == member_ext_name(unit.spec_prefix(), sname@, which.spec_bytes() + fname@),
{
    let mut r = member_stem(unit, sname);
    append_lit(&mut r, which);
    append_bytes(&mut r, fname);
    proof {
        assert(r@ =~= member_ext_name(unit.spec_prefix(), sname@, which.spec_bytes() + fname@));
    }
    r
}

/// Build the runtime type tag of the structure named `sname`.
pub fn make_tag(sname: &[u8]) -> (r: Vec<u8>)
    ensures
        r@ == tag_of(sname@),
{
    let mut r: Vec<u8> = Vec::new();
    append_bytes(&mut r, sname);
    r.push(0u8);
    proof {
        assert(r@ =~= tag_of(sname@));
    }
    r
}

/// Null-terminate an external name for emission in the registration table.
pub fn terminated(name: &[u8]) -> (r: Vec<u8>)
    ensures
        r@ == name@ + seq![0u8],
{
    let mut r: Vec<u8> = Vec::new();
    append_bytes(&mut r, name);
    r.push(0u8);
    proof {
        assert(r@ =~= name@ + seq![0u8]);
    }
    r
}

} // verus!
