//! The shadow resolver: one pass over all method blocks, made before any
//! generation, that answers the two questions later stages depend on —
//! does a structure have a user-defined constructor (which suppresses the
//! default one), and does a `(structure, method)` pair exist as a user
//! method (which suppresses a same-named auto-generated accessor).
//!
//! The resolver's output is an explicit, immutable value threaded through
//! the generation stages, so generation stays deterministic and each
//! stage can be tested on its own.

use vstd::prelude::*;
use vstd::string::StringSliceAdditionalSpecFns;

use crate::bytes::{copy_bytes, slice_eq};
use crate::model::{BindingUnit, Declaration};

verus! {

/// Does declaration `d` declare a method named `mname` for the structure
/// named `sname`?
pub open spec fn decl_declares(d: Declaration, sname: Seq<u8>, mname: Seq<u8>) -> bool {
    match d {
        Declaration::Methods(b) => b.owner@ == sname && exists|j: int|
            0 <= j < b.methods@.len() && (#[trigger] b.methods@[j]).name@ == mname,
        _ => false,
    }
}

/// Does any method block of the unit declare `mname` for `sname`?
pub open spec fn unit_has_method(unit: BindingUnit, sname: Seq<u8>, mname: Seq<u8>) -> bool {
    exists|i: int|
        0 <= i < unit.declarations@.len() && decl_declares(
            #[trigger] unit.declarations@[i],
            sname,
            mname,
        )
}

/// Does the unit define a custom constructor for `sname`?
pub open spec fn unit_has_custom_new(unit: BindingUnit, sname: Seq<u8>) -> bool {
    unit_has_method(unit, sname, "new".spec_bytes())
}

/// Like [`unit_has_method`], over only the first `n` declarations.
pub open spec fn has_method_upto(
    unit: BindingUnit,
    n: int,
    sname: Seq<u8>,
    mname: Seq<u8>,
) -> bool {
    exists|i: int|
        0 <= i < n <= unit.declarations@.len() && decl_declares(
            #[trigger] unit.declarations@[i],
            sname,
            mname,
        )
}

/// One `(structure, method)` pair found by the resolver.
pub struct MethodRef {
    pub owner: Vec<u8>,
    pub name: Vec<u8>,
}

/// The resolver's lookup facts: the set of `(structure, method)` pairs
/// the unit declares, with the unit it was computed from kept as ghost
/// provenance.
pub struct ShadowFacts {
    pub pairs: Vec<MethodRef>,
    pub source: Ghost<BindingUnit>,
}

impl ShadowFacts {
    /// Is the pair listed?
    pub open spec fn listed(self, sname: Seq<u8>, mname: Seq<u8>) -> bool {
        exists|k: int|
            0 <= k < self.pairs@.len() && (#[trigger] self.pairs@[k]).owner@ == sname
                && self.pairs@[k].name@ == mname
    }

    /// The facts list exactly the pairs the unit declares.
    pub open spec fn wf(self) -> bool {
        forall|s: Seq<u8>, m: Seq<u8>|
            #![trigger self.listed(s, m)]
            #![trigger unit_has_method(self.source@, s, m)]
            self.listed(s, m) <==> unit_has_method(self.source@, s, m)
    }
}

/// The single upfront pass: collect every `(structure, method)` pair of
/// the unit's method blocks.
pub fn resolve_shadows(unit: &BindingUnit) -> (r: ShadowFacts)
    ensures
        r.wf(),
        r.source@ == *unit,
{
    let nd: usize = unit.declarations.len();
    let mut pairs: Vec<MethodRef> = Vec::new();
    let ghost gu = *unit;
    let mut i: usize = 0;
    while i < nd
        invariant
            nd == unit.declarations@.len(),
            gu == *unit,
            i <= nd,
            forall|s: Seq<u8>, m: Seq<u8>|
                #![trigger listed_in(pairs@, s, m)]
                listed_in(pairs@, s, m) <==> has_method_upto(gu, i as int, s, m),
        decreases nd - i,
    {
        match &unit.declarations[i] {
            Declaration::Methods(b) => {
                let nm: usize = b.methods.len();
                let mut j: usize = 0;
                while j < nm
                    invariant
                        nd == unit.declarations@.len(),
                        gu == *unit,
                        i < nd,
                        nm == b.methods@.len(),
                        unit.declarations@[i as int] matches Declaration::Methods(bb) && bb
                            == *b,
                        j <= nm,
                        forall|s: Seq<u8>, m: Seq<u8>|
                            #![trigger listed_in(pairs@, s, m)]
                            listed_in(pairs@, s, m) <==> (has_method_upto(gu, i as int, s, m) || (
                            b.owner@ == s && exists|jj: int|
                                0 <= jj < j && (#[trigger] b.methods@[jj]).name@ == m)),
                    decreases nm - j,
                {
                    let mr = MethodRef {
                        owner: copy_bytes(&b.owner),
                        name: copy_bytes(&b.methods[j].name),
                    };
                    let ghost before = pairs@;
                    pairs.push(mr);
                    proof {
                        assert forall|s: Seq<u8>, m: Seq<u8>|
                            listed_in(pairs@, s, m) <==> (has_method_upto(gu, i as int, s, m) || (
                            b.owner@ == s && exists|jj: int|
                                0 <= jj < j + 1 && (#[trigger] b.methods@[jj]).name@ == m)) by {
                            if listed_in(pairs@, s, m) {
                                let k = choose|k: int|
                                    0 <= k < pairs@.len() && (#[trigger] pairs@[k]).owner@ == s
                                        && pairs@[k].name@ == m;
                                if k < before.len() {
                                    assert(listed_in(before, s, m));
                                } else {
                                    assert(b.methods@[j as int].name@ == m);
                                }
                            }
                            if has_method_upto(gu, i as int, s, m) || (b.owner@ == s && exists|
                                jj: int,
                            |
                                0 <= jj < j + 1 && (#[trigger] b.methods@[jj]).name@ == m) {
                                if listed_in(before, s, m) {
                                    let k = choose|k: int|
                                        0 <= k < before.len() && (#[trigger] before[k]).owner@
                                            == s && before[k].name@ == m;
                                    assert(pairs@[k].owner@ == s && pairs@[k].name@ == m);
                                    assert(listed_in(pairs@, s, m));
                                } else {
                                    assert(b.owner@ == s && b.methods@[j as int].name@ == m);
                                    assert(pairs@[before.len() as int].owner@ == s
                                        && pairs@[before.len() as int].name@ == m);
                                    assert(listed_in(pairs@, s, m));
                                }
                            }
                        }
                    }
                    j += 1;
                }
                proof {
                    assert forall|s: Seq<u8>, m: Seq<u8>|
                        listed_in(pairs@, s, m) <==> has_method_upto(gu, i + 1, s, m) by {
                        if listed_in(pairs@, s, m) {
                            if has_method_upto(gu, i as int, s, m) {
                                let ii = choose|ii: int|
                                    0 <= ii < i && decl_declares(
                                        #[trigger] gu.declarations@[ii],
                                        s,
                                        m,
                                    );
                                assert(decl_declares(gu.declarations@[ii], s, m));
                            } else {
                                assert(decl_declares(gu.declarations@[i as int], s, m));
                            }
                        }
                        if has_method_upto(gu, i + 1, s, m) {
                            let ii = choose|ii: int|
                                0 <= ii < i + 1 && decl_declares(
                                    #[trigger] gu.declarations@[ii],
                                    s,
                                    m,
                                );
                            if ii < i {
                                assert(has_method_upto(gu, i as int, s, m));
                            } else {
                                assert(decl_declares(gu.declarations@[i as int], s, m));
                                assert(b.owner@ == s);
                            }
                        }
                    }
                }
            },
            _ => {
                proof {
                    assert forall|s: Seq<u8>, m: Seq<u8>|
                        listed_in(pairs@, s, m) <==> has_method_upto(gu, i + 1, s, m) by {
                        if has_method_upto(gu, i + 1, s, m) {
                            let ii = choose|ii: int|
                                0 <= ii < i + 1 && decl_declares(
                                    #[trigger] gu.declarations@[ii],
                                    s,
                                    m,
                                );
                            if ii == i {
                                assert(!decl_declares(gu.declarations@[ii], s, m));
                            }
                            assert(has_method_upto(gu, i as int, s, m));
                        }
                        if listed_in(pairs@, s, m) {
                            assert(has_method_upto(gu, i as int, s, m));
                        }
                    }
                }
            },
        }
        i += 1;
    }
    let r = ShadowFacts { pairs, source: Ghost(gu) };
    proof {
        assert forall|s: Seq<u8>, m: Seq<u8>|
            r.listed(s, m) <==> unit_has_method(gu, s, m) by {
            assert(r.listed(s, m) == listed_in(r.pairs@, s, m));
            assert(has_method_upto(gu, nd as int, s, m) == unit_has_method(gu, s, m));
        }
    }
    r
}

/// Is the pair listed?  (Free form of `ShadowFacts::listed`, usable in
/// loop invariants while the vector is still being built.)
pub open spec fn listed_in(pairs: Seq<MethodRef>, sname: Seq<u8>, mname: Seq<u8>) -> bool {
    exists|k: int|
        0 <= k < pairs.len() && (#[trigger] pairs[k]).owner@ == sname && pairs[k].name@ == mname
}

/// Does the unit the facts were computed from declare this method?
pub fn has_method(facts: &ShadowFacts, sname: &[u8], mname: &[u8]) -> (r: bool)
    requires
        facts.wf(),
    ensures
        r == unit_has_method(facts.source@, sname@, mname@),
{
    let n: usize = facts.pairs.len();
    let mut k: usize = 0;
    while k < n
        invariant
            facts.wf(),
            n == facts.pairs@.len(),
            k <= n,
            forall|k2: int|
                0 <= k2 < k ==> !((#[trigger] facts.pairs@[k2]).owner@ == sname@
                    && facts.pairs@[k2].name@ == mname@),
        decreases n - k,
    {
        if slice_eq(facts.pairs[k].owner.as_slice(), sname) && slice_eq(
            facts.pairs[k].name.as_slice(),
            mname,
        ) {
            proof {
                assert(facts.pairs@[k as int].owner@ == sname@);
                assert(facts.pairs@[k as int].name@ == mname@);
                assert(listed_in(facts.pairs@, sname@, mname@)) by {
                    let kk: int = k as int;
                    assert(0 <= kk < facts.pairs@.len() && facts.pairs@[kk].owner@ == sname@
                        && facts.pairs@[kk].name@ == mname@);
                }
                assert(facts.listed(sname@, mname@));
                assert(unit_has_method(facts.source@, sname@, mname@));
            }
            return true;
        }
        k += 1;
    }
    proof {
        if facts.listed(sname@, mname@) {
            let k2 = choose|k2: int|
                0 <= k2 < facts.pairs@.len() && (#[trigger] facts.pairs@[k2]).owner@ == sname@
                    && facts.pairs@[k2].name@ == mname@;
            assert(false);
        }
        assert(!unit_has_method(facts.source@, sname@, mname@));
    }
    false
}

/// Does the unit define a custom constructor for this structure?
pub fn has_custom_new(facts: &ShadowFacts, sname: &[u8]) -> (r: bool)
    requires
        facts.wf(),
    ensures
        r == unit_has_custom_new(facts.source@, sname@),
{
    has_method(facts, sname, "new".as_bytes())
}

} // verus!
