//! The library's laws: properties that hold of every generated trampoline,
//! proved once and for all against the specifications of the generator and
//! of the call protocol.

use vstd::prelude::*;
use vstd::arithmetic::power2::pow2;
use vstd::string::StringSliceAdditionalSpecFns;

use crate::generate::{
    distinct_names, entry_names, field_cats, field_entries, function_entry, getter_suppressed,
    method_entry, param_cats, setter_entry, setter_suppressed, structure_entries, structure_head,
    structure_layout, unit_entries, unit_entries_from, unit_layouts, unit_layouts_from,
};
use crate::model::{BindingUnit, Declaration, FunctionDecl, Method, Structure, TypeCategory};
use crate::naming::member_ext_name;
use crate::numeric::{lemma_cast_identity_i64, lemma_round_exact, spec_round_f64};
use crate::protocol::{
    check_phase, num_of, set_field_post, spec_extract, spec_return_slot, text_of, RuntimeError,
};
use crate::shadow::unit_has_custom_new;
use crate::store::{Handle, ObjectStore, SlotV};
use crate::table::{action_wf, arity_of, param_cat_ok, param_cats_ok, ActionV, EntryV, StructLayoutV};

verus! {

/// Arity, first law: a free-function trampoline expects exactly the
/// declared parameter count, and its check phase rejects any call with a
/// different argument count before anything else is inspected.
pub proof fn law_function_trampoline_arity(
    unit: BindingUnit,
    f: FunctionDecl,
    store: ObjectStore,
    args: Seq<SlotV>,
)
    requires
        f.params@.len() <= usize::MAX,
        args.len() <= usize::MAX,
        args.len() != f.params@.len(),
    ensures
        arity_of(function_entry(unit.spec_prefix(), f).action) == f.params@.len(),
        check_phase(store, function_entry(unit.spec_prefix(), f).action, args) == Some(
            RuntimeError::ArityMismatch {
                expected: f.params@.len() as usize,
                actual: args.len() as usize,
            },
        ),
{
}

/// Arity, second law: a method trampoline expects the declared parameter
/// count plus one for the receiver, so a call carrying only the declared
/// parameters — no receiver — is rejected.
pub proof fn law_method_trampoline_arity(
    unit: BindingUnit,
    owner: Seq<u8>,
    m: Method,
    store: ObjectStore,
    args: Seq<SlotV>,
)
    requires
        m.params@.len() + 1 <= usize::MAX,
        args.len() == m.params@.len(),
    ensures
        arity_of(method_entry(unit.spec_prefix(), owner, m).action) == m.params@.len() + 1,
        check_phase(store, method_entry(unit.spec_prefix(), owner, m).action, args) == Some(
            RuntimeError::ArityMismatch {
                expected: (m.params@.len() + 1) as usize,
                actual: args.len() as usize,
            },
        ),
{
}

/// Is this action a constructor trampoline?
pub open spec fn is_constructor(a: ActionV) -> bool {
    a is DefaultNew || a is CustomNew
}

/// The structure a constructor trampoline constructs.
pub open spec fn constructor_structure(a: ActionV) -> Seq<u8> {
    match a {
        ActionV::DefaultNew { structure, .. } => structure,
        ActionV::CustomNew { structure, .. } => structure,
        _ => Seq::empty(),
    }
}

/// Shape facts that hold of every generated entry: a constructor entry is
/// named `<prefix_><structure_lower>_new`, and a default constructor is
/// only generated where no user `new` exists.
pub open spec fn entry_shape_ok(unit: BindingUnit, e: EntryV) -> bool {
    match e.action {
        ActionV::DefaultNew { structure, .. } => e.name == member_ext_name(
            unit.spec_prefix(),
            structure,
            "new".spec_bytes(),
        ) && !unit_has_custom_new(unit, structure),
        ActionV::CustomNew { structure, .. } => e.name == member_ext_name(
            unit.spec_prefix(),
            structure,
            "new".spec_bytes(),
        ),
        ActionV::Delete { structure, .. } => e.name == member_ext_name(
            unit.spec_prefix(),
            structure,
            "delete".spec_bytes(),
        ),
        _ => true,
    }
}

proof fn lemma_field_entries_shape(unit: BindingUnit, s: Structure, i: int)
    ensures
        forall|k: int|
            0 <= k < field_entries(unit, s, i).len() ==> entry_shape_ok(
                unit,
                #[trigger] field_entries(unit, s, i)[k],
            ),
    decreases s.fields@.len() - i,
{
    if 0 <= i < s.fields@.len() {
        lemma_field_entries_shape(unit, s, i + 1);
        let f = s.fields@[i];
        let g: Seq<EntryV> = if f.public && !getter_suppressed(unit, s.name@, f.name@) {
            seq![crate::generate::getter_entry(unit.spec_prefix(), s, i)]
        } else {
            Seq::empty()
        };
        let t: Seq<EntryV> = if f.public && !setter_suppressed(unit, s.name@, f.name@) {
            seq![setter_entry(unit.spec_prefix(), s, i)]
        } else {
            Seq::empty()
        };
        assert(field_entries(unit, s, i) == g + t + field_entries(unit, s, i + 1));
        assert forall|k: int|
            0 <= k < field_entries(unit, s, i).len() implies entry_shape_ok(
            unit,
            #[trigger] field_entries(unit, s, i)[k],
        ) by {
            if k < g.len() {
                assert(field_entries(unit, s, i)[k] == g[k]);
            } else if k < g.len() + t.len() {
                assert(field_entries(unit, s, i)[k] == t[k - g.len()]);
            } else {
                assert(field_entries(unit, s, i)[k] == field_entries(unit, s, i + 1)[k - g.len()
                    - t.len()]);
            }
        }
    }
}

proof fn lemma_block_entries_shape(
    unit: BindingUnit,
    prefix: Seq<u8>,
    b: crate::model::MethodBlock,
    j: int,
)
    requires
        prefix == unit.spec_prefix(),
    ensures
        forall|k: int|
            0 <= k < crate::generate::block_entries(prefix, b, j).len() ==> entry_shape_ok(
                unit,
                #[trigger] crate::generate::block_entries(prefix, b, j)[k],
            ),
    decreases b.methods@.len() - j,
{
    if 0 <= j < b.methods@.len() {
        lemma_block_entries_shape(unit, prefix, b, j + 1);
        let m = b.methods@[j];
        let e: Seq<EntryV> = if m.public && m.name@ == "new".spec_bytes() {
            seq![crate::generate::custom_new_entry(prefix, b.owner@, m)]
        } else if m.public && m.has_receiver {
            seq![method_entry(prefix, b.owner@, m)]
        } else {
            Seq::empty()
        };
        assert(crate::generate::block_entries(prefix, b, j) == e + crate::generate::block_entries(
            prefix,
            b,
            j + 1,
        ));
        assert forall|k: int|
            0 <= k < crate::generate::block_entries(prefix, b, j).len() implies entry_shape_ok(
            unit,
            #[trigger] crate::generate::block_entries(prefix, b, j)[k],
        ) by {
            if k < e.len() {
                assert(crate::generate::block_entries(prefix, b, j)[k] == e[k]);
            } else {
                assert(crate::generate::block_entries(prefix, b, j)[k]
                    == crate::generate::block_entries(prefix, b, j + 1)[k - e.len()]);
            }
        }
    }
}

proof fn lemma_structure_entries_shape(unit: BindingUnit, s: Structure)
    ensures
        forall|k: int|
            0 <= k < structure_entries(unit, s).len() ==> entry_shape_ok(
                unit,
                #[trigger] structure_entries(unit, s)[k],
            ),
{
    lemma_field_entries_shape(unit, s, 0);
    assert forall|k: int|
        0 <= k < structure_entries(unit, s).len() implies entry_shape_ok(
        unit,
        #[trigger] structure_entries(unit, s)[k],
    ) by {
        let head = structure_head(unit, s);
        if k < head.len() {
            assert(structure_entries(unit, s)[k] == head[k]);
        } else {
            assert(structure_entries(unit, s)[k] == field_entries(unit, s, 0)[k - head.len()]);
        }
    }
}

/// Every entry of a generated table has the constructor shape facts.
pub proof fn lemma_unit_entries_shape(unit: BindingUnit, i: int)
    ensures
        forall|k: int|
            0 <= k < unit_entries_from(unit, i).len() ==> entry_shape_ok(
                unit,
                #[trigger] unit_entries_from(unit, i)[k],
            ),
    decreases unit.declarations@.len() - i,
{
    if 0 <= i < unit.declarations@.len() {
        lemma_unit_entries_shape(unit, i + 1);
        let d = unit.declarations@[i];
        let de = crate::generate::decl_entries(unit, d);
        assert forall|k: int|
            0 <= k < de.len() implies entry_shape_ok(unit, #[trigger] de[k]) by {
            match d {
                Declaration::Function(f) => {},
                Declaration::Structure(s) => {
                    lemma_structure_entries_shape(unit, s);
                },
                Declaration::Methods(b) => {
                    lemma_block_entries_shape(unit, unit.spec_prefix(), b, 0);
                },
            }
        }
        assert forall|k: int|
            0 <= k < unit_entries_from(unit, i).len() implies entry_shape_ok(
            unit,
            #[trigger] unit_entries_from(unit, i)[k],
        ) by {
            if k < de.len() {
                assert(unit_entries_from(unit, i)[k] == de[k]);
            } else {
                assert(unit_entries_from(unit, i)[k] == unit_entries_from(unit, i + 1)[k
                    - de.len()]);
            }
        }
    }
}

/// At most one constructor trampoline per structure: two constructor
/// entries for the same structure would share the external name
/// `<prefix_><structure_lower>_new`, which a successfully generated table
/// (distinct names) cannot contain.  The default and custom constructors
/// are therefore mutually exclusive.
pub proof fn law_one_constructor_per_structure(unit: BindingUnit, a: int, b: int)
    requires
        distinct_names(entry_names(unit_entries(unit))),
        0 <= a < unit_entries(unit).len(),
        0 <= b < unit_entries(unit).len(),
        is_constructor(unit_entries(unit)[a].action),
        is_constructor(unit_entries(unit)[b].action),
        constructor_structure(unit_entries(unit)[a].action) == constructor_structure(
            unit_entries(unit)[b].action,
        ),
    ensures
        a == b,
{
    lemma_unit_entries_shape(unit, 0);
    assert(entry_shape_ok(unit, unit_entries(unit)[a]));
    assert(entry_shape_ok(unit, unit_entries(unit)[b]));
    assert(unit_entries(unit)[a].name == unit_entries(unit)[b].name);
    assert(entry_names(unit_entries(unit))[a] == unit_entries(unit)[a].name);
    assert(entry_names(unit_entries(unit))[b] == unit_entries(unit)[b].name);
}

/// Exactly as for constructors: two destructor entries for the same
/// structure would share an external name, so a successfully generated
/// unit holds at most one destructor per structure.
pub proof fn law_one_destructor_per_structure(unit: BindingUnit, a: int, b: int)
    requires
        distinct_names(entry_names(unit_entries(unit))),
        0 <= a < unit_entries(unit).len(),
        0 <= b < unit_entries(unit).len(),
        unit_entries(unit)[a].action is Delete,
        unit_entries(unit)[b].action is Delete,
        unit_entries(unit)[a].action->Delete_structure == unit_entries(
            unit,
        )[b].action->Delete_structure,
    ensures
        a == b,
{
    lemma_unit_entries_shape(unit, 0);
    assert(entry_shape_ok(unit, unit_entries(unit)[a]));
    assert(entry_shape_ok(unit, unit_entries(unit)[b]));
    assert(unit_entries(unit)[a].name == unit_entries(unit)[b].name);
    assert(entry_names(unit_entries(unit))[a] == unit_entries(unit)[a].name);
    assert(entry_names(unit_entries(unit))[b] == unit_entries(unit)[b].name);
}

/// A default-constructor trampoline exists only for structures without a
/// user-defined `new`.
pub proof fn law_custom_new_suppresses_default(unit: BindingUnit, k: int)
    requires
        0 <= k < unit_entries(unit).len(),
        unit_entries(unit)[k].action is DefaultNew,
    ensures
        !unit_has_custom_new(unit, constructor_structure(unit_entries(unit)[k].action)),
{
    lemma_unit_entries_shape(unit, 0);
    assert(entry_shape_ok(unit, unit_entries(unit)[k]));
}

/// Per-structure shape facts of accessor entries: a getter entry exists
/// only for a public field whose getter is not shadowed by a user method,
/// a setter entry only for a public field whose setter name is free.
pub open spec fn accessor_shape_ok(unit: BindingUnit, s: Structure, e: EntryV) -> bool {
    match e.action {
        ActionV::GetField { field, .. } => 0 <= field < s.fields@.len()
            && s.fields@[field as int].public && !getter_suppressed(
            unit,
            s.name@,
            s.fields@[field as int].name@,
        ),
        ActionV::SetField { field, .. } => 0 <= field < s.fields@.len()
            && s.fields@[field as int].public && !setter_suppressed(
            unit,
            s.name@,
            s.fields@[field as int].name@,
        ),
        _ => true,
    }
}

proof fn lemma_field_entries_accessors(unit: BindingUnit, s: Structure, i: int)
    requires
        s.fields@.len() <= usize::MAX,
    ensures
        forall|k: int|
            0 <= k < field_entries(unit, s, i).len() ==> accessor_shape_ok(
                unit,
                s,
                #[trigger] field_entries(unit, s, i)[k],
            ),
    decreases s.fields@.len() - i,
{
    if 0 <= i < s.fields@.len() {
        lemma_field_entries_accessors(unit, s, i + 1);
        let f = s.fields@[i];
        let g: Seq<EntryV> = if f.public && !getter_suppressed(unit, s.name@, f.name@) {
            seq![crate::generate::getter_entry(unit.spec_prefix(), s, i)]
        } else {
            Seq::empty()
        };
        let t: Seq<EntryV> = if f.public && !setter_suppressed(unit, s.name@, f.name@) {
            seq![setter_entry(unit.spec_prefix(), s, i)]
        } else {
            Seq::empty()
        };
        assert(field_entries(unit, s, i) == g + t + field_entries(unit, s, i + 1));
        assert forall|k: int|
            0 <= k < field_entries(unit, s, i).len() implies accessor_shape_ok(
            unit,
            s,
            #[trigger] field_entries(unit, s, i)[k],
        ) by {
            if k < g.len() {
                assert(field_entries(unit, s, i)[k] == g[k]);
                assert((i as usize) as int == i);
            } else if k < g.len() + t.len() {
                assert(field_entries(unit, s, i)[k] == t[k - g.len()]);
                assert((i as usize) as int == i);
            } else {
                assert(field_entries(unit, s, i)[k] == field_entries(unit, s, i + 1)[k - g.len()
                    - t.len()]);
            }
        }
    }
}

/// A user method named `get_<field>` (or bearing the bare field name)
/// suppresses the auto-generated getter: no getter entry for that field
/// appears among the structure's generated entries.
pub proof fn law_shadowing_suppresses_getter(unit: BindingUnit, s: Structure, fi: int, k: int)
    requires
        s.fields@.len() <= usize::MAX,
        0 <= fi < s.fields@.len(),
        getter_suppressed(unit, s.name@, s.fields@[fi].name@),
        0 <= k < structure_entries(unit, s).len(),
    ensures
        !(structure_entries(unit, s)[k].action matches ActionV::GetField { field, .. } && field
            == fi),
{
    lemma_field_entries_accessors(unit, s, 0);
    let head = structure_head(unit, s);
    if k >= head.len() {
        assert(structure_entries(unit, s)[k] == field_entries(unit, s, 0)[k - head.len()]);
        assert(accessor_shape_ok(unit, s, structure_entries(unit, s)[k]));
    } else {
        assert(structure_entries(unit, s)[k] == head[k]);
    }
}

proof fn lemma_setter_present_from(unit: BindingUnit, s: Structure, i: int, fi: int)
    requires
        0 <= i <= fi < s.fields@.len(),
        s.fields@[fi].public,
        !setter_suppressed(unit, s.name@, s.fields@[fi].name@),
    ensures
        exists|k: int|
            0 <= k < field_entries(unit, s, i).len() && #[trigger] field_entries(unit, s, i)[k]
                == setter_entry(unit.spec_prefix(), s, fi),
    decreases fi - i,
{
    let f = s.fields@[i];
    let g: Seq<EntryV> = if f.public && !getter_suppressed(unit, s.name@, f.name@) {
        seq![crate::generate::getter_entry(unit.spec_prefix(), s, i)]
    } else {
        Seq::empty()
    };
    let t: Seq<EntryV> = if f.public && !setter_suppressed(unit, s.name@, f.name@) {
        seq![setter_entry(unit.spec_prefix(), s, i)]
    } else {
        Seq::empty()
    };
    assert(field_entries(unit, s, i) == g + t + field_entries(unit, s, i + 1));
    if i == fi {
        assert(t == seq![setter_entry(unit.spec_prefix(), s, fi)]);
        assert(field_entries(unit, s, i)[g.len() as int] == setter_entry(
            unit.spec_prefix(),
            s,
            fi,
        ));
    } else {
        lemma_setter_present_from(unit, s, i + 1, fi);
        let k0 = choose|k: int|
            0 <= k < field_entries(unit, s, i + 1).len() && #[trigger] field_entries(
                unit,
                s,
                i + 1,
            )[k] == setter_entry(unit.spec_prefix(), s, fi);
        assert(field_entries(unit, s, i)[g.len() + t.len() + k0] == field_entries(
            unit,
            s,
            i + 1,
        )[k0]);
    }
}

/// Shadowing a getter does not touch the setter: for every public field
/// whose setter name is free, the setter entry is generated — whether or
/// not the getter was suppressed.
pub proof fn law_setter_still_generated(unit: BindingUnit, s: Structure, fi: int)
    requires
        s.fields@.len() <= usize::MAX,
        0 <= fi < s.fields@.len(),
        s.fields@[fi].public,
        !setter_suppressed(unit, s.name@, s.fields@[fi].name@),
    ensures
        exists|k: int|
            0 <= k < structure_entries(unit, s).len() && #[trigger] structure_entries(
                unit,
                s,
            )[k] == setter_entry(unit.spec_prefix(), s, fi),
{
    lemma_setter_present_from(unit, s, 0, fi);
    let head = structure_head(unit, s);
    let k0 = choose|k: int|
        0 <= k < field_entries(unit, s, 0).len() && #[trigger] field_entries(unit, s, 0)[k]
            == setter_entry(unit.spec_prefix(), s, fi);
    assert(structure_entries(unit, s)[head.len() + k0] == field_entries(unit, s, 0)[k0]);
}

/// The round trip of the accessors: after a setter stored an extracted
/// value into a field, the instance is unchanged but for that field, and
/// a getter's observation of it is pinned — exactly the stored value for
/// text and booleans, and for 64-bit integers exactly the written number
/// whenever its magnitude stays within the double-precision-exact range.
pub proof fn law_set_then_get_observes(
    pre: ObjectStore,
    mid: ObjectStore,
    h: Handle,
    field: int,
    cat: TypeCategory,
    value: SlotV,
)
    requires
        pre.live(h),
        0 <= field < pre.object_v(h).fields.len(),
        set_field_post(pre, mid, h, field, spec_extract(value, cat)),
    ensures
        mid.live(h),
        mid.object_v(h).fields.len() == pre.object_v(h).fields.len(),
        mid.object_v(h).fields[field] == spec_extract(value, cat),
        forall|j: int|
            0 <= j < pre.object_v(h).fields.len() && j != field ==> mid.object_v(h).fields[j]
                == pre.object_v(h).fields[j],
        spec_return_slot(mid.object_v(h).fields[field]) == spec_return_slot(
            spec_extract(value, cat),
        ),
        (cat == (TypeCategory::Integer { bits: 64, signed: true }) && value is Number && -(pow2(53)
            as int) <= num_of(value) <= pow2(53) as int) ==> spec_return_slot(
            mid.object_v(h).fields[field],
        ) == SlotV::Number(num_of(value)),
        (cat is Text && value is Text) ==> spec_return_slot(mid.object_v(h).fields[field])
            == SlotV::Text(text_of(value)),
        (cat is Boolean && value is Number) ==> spec_return_slot(mid.object_v(h).fields[field])
            == SlotV::Number(
            if num_of(value) != 0 {
                1
            } else {
                0
            },
        ),
{
    if cat == (TypeCategory::Integer { bits: 64, signed: true }) && value is Number && -(pow2(53)
        as int) <= num_of(value) <= pow2(53) as int {
        lemma_cast_identity_i64(num_of(value) as int);
        lemma_round_exact(num_of(value) as int, 53);
    }
}

/// A handle tagged for one structure is rejected by a trampoline
/// expecting another structure's tag — as is a stale handle — with the
/// invalid-pointer error, before any extraction happens.
pub proof fn law_foreign_handle_rejected(
    store: ObjectStore,
    a: ActionV,
    args: Seq<SlotV>,
    h: Handle,
    expected_tag: Seq<u8>,
)
    requires
        args.len() == arity_of(a),
        0 < args.len(),
        args[0] == SlotV::Pointer(Some(h)),
        receiver_tag(a) == Some(expected_tag),
        store.live(h) ==> store.object_v(h).tag != expected_tag,
    ensures
        check_phase(store, a, args) == Some(RuntimeError::InvalidPointer { position: 1 }),
{
}

/// The tag a receiver-taking trampoline demands.
pub open spec fn receiver_tag(a: ActionV) -> Option<Seq<u8>> {
    match a {
        ActionV::Delete { tag, .. } => Some(tag),
        ActionV::GetField { tag, .. } => Some(tag),
        ActionV::SetField { tag, .. } => Some(tag),
        ActionV::MethodCall { tag, .. } => Some(tag),
        _ => None,
    }
}

/// The precision boundary of the numeric path: a number that crosses the
/// double-precision return slot comes back exactly whenever its magnitude
/// is at most `2^53`; larger magnitudes round to the nearest representable
/// value and may lose precision.
pub proof fn law_double_path_exact(n: int)
    requires
        -(pow2(53) as int) <= n <= pow2(53) as int,
    ensures
        spec_round_f64(n) == n,
{
    lemma_round_exact(n, 53);
}

/// Bound that every model built from real vectors satisfies: field lists
/// fit the machine's index range.
pub open spec fn unit_bounded(unit: BindingUnit) -> bool {
    forall|i: int|
        0 <= i < unit.declarations@.len() ==> ((#[trigger] unit.declarations@[i]) matches
            Declaration::Structure(s) ==> s.fields@.len() <= usize::MAX)
}

/// Every unit value satisfies the bound: a field list lives in a vector,
/// whose length fits the machine's index range.
pub proof fn lemma_unit_bounded(unit: BindingUnit)
    ensures
        unit_bounded(unit),
{
    broadcast use vstd::std_specs::vec::axiom_spec_len;

    assert forall|i: int|
        0 <= i < unit.declarations@.len() implies ((#[trigger] unit.declarations@[i]) matches
        Declaration::Structure(s) ==> s.fields@.len() <= usize::MAX) by {
        match unit.declarations@[i] {
            Declaration::Structure(s) => {
                assert(vstd::std_specs::vec::spec_vec_len(&s.fields) == s.fields@.len());
            },
            _ => {},
        }
    }
}

/// The layout of a structure declared at `si` appears among the layouts
/// derived from declaration `i` on.
proof fn lemma_layout_present(unit: BindingUnit, i: int, si: int)
    requires
        0 <= i <= si < unit.declarations@.len(),
        unit.declarations@[si] is Structure,
    ensures
        exists|k: int|
            0 <= k < unit_layouts_from(unit, i).len() && #[trigger] unit_layouts_from(
                unit,
                i,
            )[k] == structure_layout(unit.declarations@[si]->Structure_0),
    decreases si - i,
{
    let head: Seq<StructLayoutV> = match unit.declarations@[i] {
        Declaration::Structure(s) => seq![structure_layout(s)],
        _ => Seq::<StructLayoutV>::empty(),
    };
    assert(unit_layouts_from(unit, i) == head + unit_layouts_from(unit, i + 1));
    if i == si {
        assert(unit_layouts_from(unit, i)[0] == structure_layout(
            unit.declarations@[si]->Structure_0,
        ));
    } else {
        lemma_layout_present(unit, i + 1, si);
        let k0 = choose|k: int|
            0 <= k < unit_layouts_from(unit, i + 1).len() && #[trigger] unit_layouts_from(
                unit,
                i + 1,
            )[k] == structure_layout(unit.declarations@[si]->Structure_0);
        assert(unit_layouts_from(unit, i)[head.len() + k0] == unit_layouts_from(unit, i + 1)[k0]);
    }
}

/// Classified parameter lists are well-formed and never opaque.
proof fn lemma_param_cats_ok(ps: Seq<crate::model::Param>)
    ensures
        param_cats_ok(param_cats(ps)),
{
    assert forall|i: int|
        0 <= i < param_cats(ps).len() implies param_cat_ok(#[trigger] param_cats(ps)[i]) by {
        crate::classify::lemma_classify_wf(ps[i].ty@);
    }
}

/// Classified field lists are well-formed and never opaque.
proof fn lemma_field_cats_ok(fs: Seq<crate::model::Field>)
    ensures
        param_cats_ok(field_cats(fs)),
{
    assert forall|i: int|
        0 <= i < field_cats(fs).len() implies param_cat_ok(#[trigger] field_cats(fs)[i]) by {
        crate::classify::lemma_classify_wf(fs[i].ty@);
    }
}

proof fn lemma_field_entries_wf(
    unit: BindingUnit,
    s: Structure,
    i: int,
    layouts: Seq<StructLayoutV>,
)
    requires
        s.fields@.len() <= usize::MAX,
        exists|k: int| 0 <= k < layouts.len() && #[trigger] layouts[k] == structure_layout(s),
    ensures
        forall|k: int|
            0 <= k < field_entries(unit, s, i).len() ==> action_wf(
                (#[trigger] field_entries(unit, s, i)[k]).action,
                layouts,
            ),
    decreases s.fields@.len() - i,
{
    if 0 <= i < s.fields@.len() {
        lemma_field_entries_wf(unit, s, i + 1, layouts);
        let f = s.fields@[i];
        let g: Seq<EntryV> = if f.public && !getter_suppressed(unit, s.name@, f.name@) {
            seq![crate::generate::getter_entry(unit.spec_prefix(), s, i)]
        } else {
            Seq::empty()
        };
        let t: Seq<EntryV> = if f.public && !setter_suppressed(unit, s.name@, f.name@) {
            seq![setter_entry(unit.spec_prefix(), s, i)]
        } else {
            Seq::empty()
        };
        assert(field_entries(unit, s, i) == g + t + field_entries(unit, s, i + 1));
        let kk = choose|k: int|
            0 <= k < layouts.len() && #[trigger] layouts[k] == structure_layout(s);
        assert forall|k: int|
            0 <= k < field_entries(unit, s, i).len() implies action_wf(
            (#[trigger] field_entries(unit, s, i)[k]).action,
            layouts,
        ) by {
            if k < g.len() + t.len() {
                if k < g.len() {
                    assert(field_entries(unit, s, i)[k] == g[k]);
                } else {
                    assert(field_entries(unit, s, i)[k] == t[k - g.len()]);
                }
                assert((i as usize) as int == i);
                assert(layouts[kk].tag == crate::naming::tag_of(s.name@));
                assert(layouts[kk].fields.len() == s.fields@.len());
                assert(layouts[kk].fields[i].cat == crate::classify::spec_classify(f.ty@));
                crate::classify::lemma_classify_wf(f.ty@);
            } else {
                assert(field_entries(unit, s, i)[k] == field_entries(unit, s, i + 1)[k - g.len()
                    - t.len()]);
            }
        }
    }
}

proof fn lemma_structure_entries_wf(unit: BindingUnit, s: Structure, layouts: Seq<StructLayoutV>)
    requires
        s.fields@.len() <= usize::MAX,
        exists|k: int| 0 <= k < layouts.len() && #[trigger] layouts[k] == structure_layout(s),
    ensures
        forall|k: int|
            0 <= k < structure_entries(unit, s).len() ==> action_wf(
                (#[trigger] structure_entries(unit, s)[k]).action,
                layouts,
            ),
{
    lemma_field_entries_wf(unit, s, 0, layouts);
    let kk = choose|k: int| 0 <= k < layouts.len() && #[trigger] layouts[k] == structure_layout(s);
    assert forall|k: int|
        0 <= k < structure_entries(unit, s).len() implies action_wf(
        (#[trigger] structure_entries(unit, s)[k]).action,
        layouts,
    ) by {
        let head = structure_head(unit, s);
        if k < head.len() {
            assert(structure_entries(unit, s)[k] == head[k]);
            match structure_entries(unit, s)[k].action {
                ActionV::DefaultNew { tag, field_cats: fc, .. } => {
                    assert(layouts[kk].tag == crate::naming::tag_of(s.name@));
                    assert(crate::table::layout_cats(layouts[kk]) =~= field_cats(s.fields@));
                    lemma_field_cats_ok(s.fields@);
                },
                _ => {},
            }
        } else {
            assert(structure_entries(unit, s)[k] == field_entries(unit, s, 0)[k - head.len()]);
        }
    }
}

proof fn lemma_block_entries_wf(
    prefix: Seq<u8>,
    b: crate::model::MethodBlock,
    j: int,
    layouts: Seq<StructLayoutV>,
)
    ensures
        forall|k: int|
            0 <= k < crate::generate::block_entries(prefix, b, j).len() ==> action_wf(
                (#[trigger] crate::generate::block_entries(prefix, b, j)[k]).action,
                layouts,
            ),
    decreases b.methods@.len() - j,
{
    if 0 <= j < b.methods@.len() {
        lemma_block_entries_wf(prefix, b, j + 1, layouts);
        let m = b.methods@[j];
        let e: Seq<EntryV> = if m.public && m.name@ == "new".spec_bytes() {
            seq![crate::generate::custom_new_entry(prefix, b.owner@, m)]
        } else if m.public && m.has_receiver {
            seq![method_entry(prefix, b.owner@, m)]
        } else {
            Seq::empty()
        };
        assert(crate::generate::block_entries(prefix, b, j) == e + crate::generate::block_entries(
            prefix,
            b,
            j + 1,
        ));
        assert forall|k: int|
            0 <= k < crate::generate::block_entries(prefix, b, j).len() implies action_wf(
            (#[trigger] crate::generate::block_entries(prefix, b, j)[k]).action,
            layouts,
        ) by {
            if k < e.len() {
                assert(crate::generate::block_entries(prefix, b, j)[k] == e[k]);
                lemma_param_cats_ok(m.params@);
            } else {
                assert(crate::generate::block_entries(prefix, b, j)[k]
                    == crate::generate::block_entries(prefix, b, j + 1)[k - e.len()]);
            }
        }
    }
}

proof fn lemma_unit_entries_wf(unit: BindingUnit, i: int)
    requires
        unit_bounded(unit),
    ensures
        forall|k: int|
            0 <= k < unit_entries_from(unit, i).len() ==> action_wf(
                (#[trigger] unit_entries_from(unit, i)[k]).action,
                unit_layouts(unit),
            ),
    decreases unit.declarations@.len() - i,
{
    if 0 <= i < unit.declarations@.len() {
        lemma_unit_entries_wf(unit, i + 1);
        let d = unit.declarations@[i];
        let de = crate::generate::decl_entries(unit, d);
        assert forall|k: int|
            0 <= k < de.len() implies action_wf((#[trigger] de[k]).action, unit_layouts(unit)) by {
            match d {
                Declaration::Function(f) => {
                    lemma_param_cats_ok(f.params@);
                },
                Declaration::Structure(s) => {
                    lemma_layout_present(unit, 0, i);
                    lemma_structure_entries_wf(unit, s, unit_layouts(unit));
                },
                Declaration::Methods(b) => {
                    lemma_block_entries_wf(unit.spec_prefix(), b, 0, unit_layouts(unit));
                },
            }
        }
        assert forall|k: int|
            0 <= k < unit_entries_from(unit, i).len() implies action_wf(
            (#[trigger] unit_entries_from(unit, i)[k]).action,
            unit_layouts(unit),
        ) by {
            if k < de.len() {
                assert(unit_entries_from(unit, i)[k] == de[k]);
            } else {
                assert(unit_entries_from(unit, i)[k] == unit_entries_from(unit, i + 1)[k
                    - de.len()]);
            }
        }
    }
}

/// Every action of a generated table is consistent with the generated
/// layouts, so the table can be handed to the call protocol as it stands.
pub proof fn law_generated_actions_wf(unit: BindingUnit, k: int)
    requires
        unit_bounded(unit),
        0 <= k < unit_entries(unit).len(),
    ensures
        action_wf(unit_entries(unit)[k].action, unit_layouts(unit)),
{
    lemma_unit_entries_wf(unit, 0);
}

/// The destructor names that the structures of the unit derive, from
/// declaration `i` on — one per structure, in declaration order, in step
/// with [`unit_layouts_from`].
pub open spec fn delete_names(unit: BindingUnit, i: int) -> Seq<Seq<u8>>
    decreases unit.declarations@.len() - i,
{
    if i < 0 || i >= unit.declarations@.len() {
        Seq::empty()
    } else {
        (match unit.declarations@[i] {
            Declaration::Structure(s) => seq![
                member_ext_name(unit.spec_prefix(), s.name@, "delete".spec_bytes()),
            ],
            _ => Seq::<Seq<u8>>::empty(),
        }) + delete_names(unit, i + 1)
    }
}

/// Destructor names run in step with the layouts: the `k`-th layout's
/// structure derives the `k`-th destructor name, and every layout's tag
/// is its structure name null-terminated.
proof fn lemma_delete_names_parallel(unit: BindingUnit, i: int)
    ensures
        delete_names(unit, i).len() == unit_layouts_from(unit, i).len(),
        forall|k: int|
            0 <= k < delete_names(unit, i).len() ==> #[trigger] delete_names(unit, i)[k]
                == member_ext_name(
                unit.spec_prefix(),
                unit_layouts_from(unit, i)[k].name,
                "delete".spec_bytes(),
            ) && unit_layouts_from(unit, i)[k].tag == crate::naming::tag_of(
                unit_layouts_from(unit, i)[k].name,
            ),
    decreases unit.declarations@.len() - i,
{
    if 0 <= i < unit.declarations@.len() {
        lemma_delete_names_parallel(unit, i + 1);
        let dh: Seq<Seq<u8>> = match unit.declarations@[i] {
            Declaration::Structure(s) => seq![
                member_ext_name(unit.spec_prefix(), s.name@, "delete".spec_bytes()),
            ],
            _ => Seq::<Seq<u8>>::empty(),
        };
        let lh: Seq<StructLayoutV> = match unit.declarations@[i] {
            Declaration::Structure(s) => seq![structure_layout(s)],
            _ => Seq::<StructLayoutV>::empty(),
        };
        assert(delete_names(unit, i) == dh + delete_names(unit, i + 1));
        assert(unit_layouts_from(unit, i) == lh + unit_layouts_from(unit, i + 1));
        assert forall|k: int|
            0 <= k < delete_names(unit, i).len() implies #[trigger] delete_names(unit, i)[k]
            == member_ext_name(
            unit.spec_prefix(),
            unit_layouts_from(unit, i)[k].name,
            "delete".spec_bytes(),
        ) && unit_layouts_from(unit, i)[k].tag == crate::naming::tag_of(
            unit_layouts_from(unit, i)[k].name,
        ) by {
            if k < dh.len() {
                assert(delete_names(unit, i)[k] == dh[k]);
                assert(unit_layouts_from(unit, i)[k] == lh[k]);
            } else {
                assert(delete_names(unit, i)[k] == delete_names(unit, i + 1)[k - dh.len()]);
                assert(unit_layouts_from(unit, i)[k] == unit_layouts_from(unit, i + 1)[k
                    - dh.len()]);
            }
        }
    }
}

/// Every destructor name is carried by some generated entry.
proof fn lemma_delete_name_present(unit: BindingUnit, i: int, k: int)
    requires
        0 <= k < delete_names(unit, i).len(),
        0 <= i,
    ensures
        exists|e: int|
            0 <= e < unit_entries_from(unit, i).len() && (#[trigger] unit_entries_from(
                unit,
                i,
            )[e]).name == delete_names(unit, i)[k],
    decreases unit.declarations@.len() - i,
{
    let d = unit.declarations@[i];
    let de = crate::generate::decl_entries(unit, d);
    assert(unit_entries_from(unit, i) == de + unit_entries_from(unit, i + 1));
    match d {
        Declaration::Structure(s) => {
            if k == 0 {
                assert(structure_entries(unit, s)[0] == structure_head(unit, s)[0]);
                assert(unit_entries_from(unit, i)[0] == de[0]);
                assert(unit_entries_from(unit, i)[0].name == delete_names(unit, i)[0]);
            } else {
                lemma_delete_name_present(unit, i + 1, k - 1);
                let e0 = choose|e: int|
                    0 <= e < unit_entries_from(unit, i + 1).len() && (
                    #[trigger] unit_entries_from(unit, i + 1)[e]).name == delete_names(
                        unit,
                        i + 1,
                    )[k - 1];
                assert(unit_entries_from(unit, i)[de.len() + e0] == unit_entries_from(
                    unit,
                    i + 1,
                )[e0]);
                assert(delete_names(unit, i)[k] == delete_names(unit, i + 1)[k - 1]);
            }
        },
        _ => {
            lemma_delete_name_present(unit, i + 1, k);
            let e0 = choose|e: int|
                0 <= e < unit_entries_from(unit, i + 1).len() && (#[trigger] unit_entries_from(
                    unit,
                    i + 1,
                )[e]).name == delete_names(unit, i + 1)[k];
            assert(unit_entries_from(unit, i)[de.len() + e0] == unit_entries_from(unit, i + 1)[e0]);
            assert(delete_names(unit, i)[k] == delete_names(unit, i + 1)[k]);
        },
    }
}

/// Two destructor names, in order, are carried by two generated entries,
/// in order.
proof fn lemma_delete_name_pair(unit: BindingUnit, i: int, k1: int, k2: int)
    requires
        0 <= k1 < k2 < delete_names(unit, i).len(),
        0 <= i,
    ensures
        exists|e1: int, e2: int|
            0 <= e1 < e2 < unit_entries_from(unit, i).len() && (#[trigger] unit_entries_from(
                unit,
                i,
            )[e1]).name == delete_names(unit, i)[k1] && (#[trigger] unit_entries_from(
                unit,
                i,
            )[e2]).name == delete_names(unit, i)[k2],
    decreases unit.declarations@.len() - i,
{
    let d = unit.declarations@[i];
    let de = crate::generate::decl_entries(unit, d);
    assert(unit_entries_from(unit, i) == de + unit_entries_from(unit, i + 1));
    match d {
        Declaration::Structure(s) => {
            if k1 == 0 {
                assert(structure_entries(unit, s)[0] == structure_head(unit, s)[0]);
                assert(unit_entries_from(unit, i)[0] == de[0]);
                assert(unit_entries_from(unit, i)[0].name == delete_names(unit, i)[0]);
                lemma_delete_name_present(unit, i + 1, k2 - 1);
                let e0 = choose|e: int|
                    0 <= e < unit_entries_from(unit, i + 1).len() && (
                    #[trigger] unit_entries_from(unit, i + 1)[e]).name == delete_names(
                        unit,
                        i + 1,
                    )[k2 - 1];
                assert(unit_entries_from(unit, i)[de.len() + e0] == unit_entries_from(
                    unit,
                    i + 1,
                )[e0]);
                assert(delete_names(unit, i)[k2] == delete_names(unit, i + 1)[k2 - 1]);
                assert(de.len() >= 1);
            } else {
                lemma_delete_name_pair(unit, i + 1, k1 - 1, k2 - 1);
                let (e1, e2): (int, int) = choose|e1: int, e2: int|
                    0 <= e1 < e2 < unit_entries_from(unit, i + 1).len() && (
                    #[trigger] unit_entries_from(unit, i + 1)[e1]).name == delete_names(
                        unit,
                        i + 1,
                    )[k1 - 1] && (#[trigger] unit_entries_from(unit, i + 1)[e2]).name
                        == delete_names(unit, i + 1)[k2 - 1];
                assert(unit_entries_from(unit, i)[de.len() + e1] == unit_entries_from(
                    unit,
                    i + 1,
                )[e1]);
                assert(unit_entries_from(unit, i)[de.len() + e2] == unit_entries_from(
                    unit,
                    i + 1,
                )[e2]);
            }
        },
        _ => {
            lemma_delete_name_pair(unit, i + 1, k1, k2);
            let (e1, e2): (int, int) = choose|e1: int, e2: int|
                0 <= e1 < e2 < unit_entries_from(unit, i + 1).len() && (
                #[trigger] unit_entries_from(unit, i + 1)[e1]).name == delete_names(
                    unit,
                    i + 1,
                )[k1] && (#[trigger] unit_entries_from(unit, i + 1)[e2]).name == delete_names(
                    unit,
                    i + 1,
                )[k2];
            assert(unit_entries_from(unit, i)[de.len() + e1] == unit_entries_from(unit, i + 1)[e1]);
            assert(unit_entries_from(unit, i)[de.len() + e2] == unit_entries_from(unit, i + 1)[e2]);
        },
    }
}

/// Null-terminating is injective on names.
proof fn lemma_tag_injective(a: Seq<u8>, b: Seq<u8>)
    requires
        crate::naming::tag_of(a) == crate::naming::tag_of(b),
    ensures
        a == b,
{
    assert(crate::naming::tag_of(a).len() == a.len() + 1);
    assert(crate::naming::tag_of(b).len() == b.len() + 1);
    assert(a.len() == b.len());
    assert forall|j: int| 0 <= j < a.len() implies a[j] == b[j] by {
        assert(crate::naming::tag_of(a)[j] == a[j]);
        assert(crate::naming::tag_of(b)[j] == b[j]);
    }
    assert(a =~= b);
}

/// In a successfully generated unit (distinct external names), distinct
/// layouts carry distinct tags: two structures with the same name would
/// derive the same destructor name, which the table cannot contain twice.
pub proof fn law_generated_layouts_distinct(unit: BindingUnit, k1: int, k2: int)
    requires
        distinct_names(entry_names(unit_entries(unit))),
        0 <= k1 < k2 < unit_layouts(unit).len(),
    ensures
        unit_layouts(unit)[k1].tag != unit_layouts(unit)[k2].tag,
{
    lemma_delete_names_parallel(unit, 0);
    assert(delete_names(unit, 0)[k1] == member_ext_name(
        unit.spec_prefix(),
        unit_layouts_from(unit, 0)[k1].name,
        "delete".spec_bytes(),
    ) && unit_layouts_from(unit, 0)[k1].tag == crate::naming::tag_of(
        unit_layouts_from(unit, 0)[k1].name,
    ));
    assert(delete_names(unit, 0)[k2] == member_ext_name(
        unit.spec_prefix(),
        unit_layouts_from(unit, 0)[k2].name,
        "delete".spec_bytes(),
    ) && unit_layouts_from(unit, 0)[k2].tag == crate::naming::tag_of(
        unit_layouts_from(unit, 0)[k2].name,
    ));
    if unit_layouts(unit)[k1].tag == unit_layouts(unit)[k2].tag {
        lemma_tag_injective(unit_layouts(unit)[k1].name, unit_layouts(unit)[k2].name);
        assert(delete_names(unit, 0)[k1] == delete_names(unit, 0)[k2]);
        lemma_delete_name_pair(unit, 0, k1, k2);
        let (e1, e2): (int, int) = choose|e1: int, e2: int|
            0 <= e1 < e2 < unit_entries_from(unit, 0).len() && (#[trigger] unit_entries_from(
                unit,
                0,
            )[e1]).name == delete_names(unit, 0)[k1] && (#[trigger] unit_entries_from(
                unit,
                0,
            )[e2]).name == delete_names(unit, 0)[k2];
        assert(entry_names(unit_entries(unit))[e1] == unit_entries(unit)[e1].name);
        assert(entry_names(unit_entries(unit))[e2] == unit_entries(unit)[e2].name);
    }
}

/// The generated layouts of a successfully generated unit satisfy the
/// protocol's layout invariant outright.
pub proof fn law_generated_layouts_wf(unit: BindingUnit)
    requires
        distinct_names(entry_names(unit_entries(unit))),
    ensures
        crate::table::layouts_wf(unit_layouts(unit)),
{
    assert forall|k1: int, k2: int|
        0 <= k1 < k2 < unit_layouts(unit).len() implies (#[trigger] unit_layouts(unit)[k1]).tag
        != (#[trigger] unit_layouts(unit)[k2]).tag by {
        law_generated_layouts_distinct(unit, k1, k2);
    }
}

} // verus!
