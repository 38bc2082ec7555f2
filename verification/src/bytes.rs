//! Small executable helpers for the byte strings that carry every name and
//! type expression in this crate: equality, copying, and appending, each
//! with an exact contract over the `Seq<u8>` view.

use vstd::prelude::*;
use vstd::string::StringSliceAdditionalSpecFns;

verus! {

/// Byte-wise equality of two byte slices.
pub fn slice_eq(a: &[u8], b: &[u8]) -> (r: bool)
    ensures
        r == (a@ == b@),
{
    if a.len() != b.len() {
        assert(a@ != b@) by {
            assert(a@.len() != b@.len());
        }
        return false;
    }
    let n: usize = a.len();
    let mut i: usize = 0;
    while i < n
        invariant
            n == a@.len() == b@.len(),
            i <= n,
            forall|k: int| 0 <= k < i ==> a@[k] == b@[k],
        decreases n - i,
    {
        if a[i] != b[i] {
            return false;
        }
        i += 1;
    }
    proof {
        assert(a@ =~= b@);
    }
    true
}

/// Byte-wise equality of two byte vectors.
pub fn bytes_eq(a: &Vec<u8>, b: &Vec<u8>) -> (r: bool)
    ensures
        r == (a@ == b@),
{
    slice_eq(a.as_slice(), b.as_slice())
}

/// Equality of a byte slice against the UTF-8 bytes of a string literal.
pub fn eq_lit(t: &[u8], s: &str) -> (r: bool)
    ensures
        r == (t@ == s.spec_bytes()),
{
    slice_eq(t, s.as_bytes())
}

/// Copy a byte vector.
pub fn copy_bytes(v: &Vec<u8>) -> (r: Vec<u8>)
    ensures
        r@ == v@,
{
    let r = v.clone();
    proof {
        assert(r@ =~= v@);
    }
    r
}

/// Append a byte slice to the end of a vector.
pub fn append_bytes(dst: &mut Vec<u8>, src: &[u8])
    ensures
        final(dst)@ == old(dst)@ + src@,
{
    let n: usize = src.len();
    let mut i: usize = 0;
    while i < n
        invariant
            n == src@.len(),
            i <= n,
            dst@ == old(dst)@ + src@.subrange(0, i as int),
        decreases n - i,
    {
        dst.push(src[i]);
        proof {
            assert(old(dst)@ + src@.subrange(0, i as int) + seq![src@[i as int]]
                =~= old(dst)@ + src@.subrange(0, i + 1));
        }
        i += 1;
    }
    proof {
        assert(old(dst)@ + src@.subrange(0, n as int) =~= old(dst)@ + src@);
    }
}

/// Is the byte one of the ASCII whitespace characters (tab through
/// carriage return, or space)?
pub open spec fn is_space_byte(b: u8) -> bool {
    b == ' ' as u8 || 9 <= b <= 13
}

/// The byte string with its leading ASCII whitespace removed.
pub open spec fn trim_front(t: Seq<u8>) -> Seq<u8>
    decreases t.len(),
{
    if t.len() > 0 && is_space_byte(t[0]) {
        trim_front(t.subrange(1, t.len() as int))
    } else {
        t
    }
}

/// The byte string with its trailing ASCII whitespace removed.
pub open spec fn trim_back(t: Seq<u8>) -> Seq<u8>
    decreases t.len(),
{
    if t.len() > 0 && is_space_byte(t[t.len() - 1]) {
        trim_back(t.subrange(0, t.len() - 1))
    } else {
        t
    }
}

/// The byte string with ASCII whitespace removed from both ends.
pub open spec fn trimmed(t: Seq<u8>) -> Seq<u8> {
    trim_back(trim_front(t))
}

/// Skipping a leading run of whitespace is exactly `trim_front`.
proof fn lemma_trim_front_skip(t: Seq<u8>, lo: int)
    requires
        0 <= lo <= t.len(),
        forall|k: int| 0 <= k < lo ==> is_space_byte(#[trigger] t[k]),
        lo == t.len() || !is_space_byte(t[lo]),
    ensures
        trim_front(t) == t.subrange(lo, t.len() as int),
    decreases lo,
{
    if lo == 0 {
        assert(t.subrange(0, t.len() as int) =~= t);
    } else {
        let t1 = t.subrange(1, t.len() as int);
        assert(is_space_byte(t[0]));
        assert forall|k: int| 0 <= k < lo - 1 implies is_space_byte(#[trigger] t1[k]) by {
            assert(t1[k] == t[k + 1]);
        }
        if lo < t.len() {
            assert(t1[lo - 1] == t[lo]);
        }
        lemma_trim_front_skip(t1, lo - 1);
        assert(t1.subrange(lo - 1, t1.len() as int) =~= t.subrange(lo, t.len() as int));
    }
}

/// Dropping a trailing run of whitespace is exactly `trim_back`.
proof fn lemma_trim_back_skip(t: Seq<u8>, hi: int)
    requires
        0 <= hi <= t.len(),
        forall|k: int| hi <= k < t.len() ==> is_space_byte(#[trigger] t[k]),
        hi == 0 || !is_space_byte(t[hi - 1]),
    ensures
        trim_back(t) == t.subrange(0, hi),
    decreases t.len() - hi,
{
    if hi == t.len() {
        assert(t.subrange(0, t.len() as int) =~= t);
    } else {
        assert(is_space_byte(t[t.len() - 1]));
        let t1 = t.subrange(0, t.len() - 1);
        assert forall|k: int| hi <= k < t1.len() implies is_space_byte(#[trigger] t1[k]) by {
            assert(t1[k] == t[k]);
        }
        if hi > 0 {
            assert(t1[hi - 1] == t[hi - 1]);
        }
        lemma_trim_back_skip(t1, hi);
        assert(t1.subrange(0, hi) =~= t.subrange(0, hi));
    }
}

/// Is the byte ASCII whitespace?
fn byte_is_space(b: u8) -> (r: bool)
    ensures
        r == is_space_byte(b),
{
    b == ' ' as u8 || (b >= 9 && b <= 13)
}

/// Strip ASCII whitespace from both ends of a byte string.
pub fn trim_bytes(t: &[u8]) -> (r: Vec<u8>)
    ensures
        r@ == trimmed(t@),
{
    let n: usize = t.len();
    let mut lo: usize = 0;
    while lo < n && byte_is_space(t[lo])
        invariant
            n == t@.len(),
            lo <= n,
            forall|k: int| 0 <= k < lo ==> is_space_byte(#[trigger] t@[k]),
        decreases n - lo,
    {
        lo += 1;
    }
    let mut hi: usize = n;
    while hi > lo && byte_is_space(t[hi - 1])
        invariant
            n == t@.len(),
            lo <= hi <= n,
            forall|k: int| 0 <= k < lo ==> is_space_byte(#[trigger] t@[k]),
            lo == n || !is_space_byte(t@[lo as int]),
            forall|k: int| hi <= k < n ==> is_space_byte(#[trigger] t@[k]),
        decreases hi,
    {
        hi -= 1;
    }
    proof {
        lemma_trim_front_skip(t@, lo as int);
        let u = t@.subrange(lo as int, n as int);
        assert forall|k: int| hi - lo <= k < u.len() implies is_space_byte(#[trigger] u[k]) by {
            assert(u[k] == t@[lo + k]);
        }
        if hi > lo {
            assert(u[hi - lo - 1] == t@[hi - 1]);
        }
        lemma_trim_back_skip(u, hi - lo as int);
        assert(u.subrange(0, hi - lo as int) =~= t@.subrange(lo as int, hi as int));
        assert(trimmed(t@) == t@.subrange(lo as int, hi as int));
    }
    let mut r: Vec<u8> = Vec::new();
    let mut i: usize = lo;
    while i < hi
        invariant
            n == t@.len(),
            lo <= i <= hi <= n,
            trimmed(t@) == t@.subrange(lo as int, hi as int),
            r@ == t@.subrange(lo as int, i as int),
        decreases hi - i,
    {
        r.push(t[i]);
        proof {
            assert(t@.subrange(lo as int, i as int).push(t@[i as int]) =~= t@.subrange(
                lo as int,
                i + 1,
            ));
        }
        i += 1;
    }
    proof {
        assert(r@ == trimmed(t@));
    }
    r
}

/// Append the UTF-8 bytes of a string literal to the end of a vector.
pub fn append_lit(dst: &mut Vec<u8>, s: &str)
    ensures
        final(dst)@ == old(dst)@ + s.spec_bytes(),
{
    append_bytes(dst, s.as_bytes());
}

} // verus!
