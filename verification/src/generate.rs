//! The generator: from a binding unit to its registration table and
//! structure layouts.
//!
//! For every exposed function, structure, and method the generator derives
//! the external name by the naming policy and the trampoline action the
//! protocol will run.  Per structure it emits one destructor, one
//! constructor (the default one exactly when no user `new` exists), and a
//! getter and setter per public field unless a same-named user method
//! shadows them.  Entries appear in generation order; external names must
//! be unique within a unit, and a collision fails generation entirely.

use vstd::prelude::*;
use vstd::string::StringSliceAdditionalSpecFns;

use crate::bytes::{append_bytes, append_lit, bytes_eq, copy_bytes};
use crate::classify::{classify, is_recognized_name, is_recognized_type, spec_classify, spec_classify_ret};
use crate::model::{
    BindingUnit, Declaration, Field, FunctionDecl, Method, MethodBlock, Param, Structure,
    TypeCategory,
};
use crate::naming::{
    function_ext_name, getter_suffix, make_accessor_name, make_function_name, make_member_name,
    make_tag, member_ext_name, setter_suffix, tag_of,
};
use crate::shadow::{
    has_custom_new, has_method, resolve_shadows, unit_has_custom_new, unit_has_method, ShadowFacts,
};
use crate::table::{
    layout_views, Action, ActionV, EntryV, FieldLayout, FieldLayoutV, RegistrationEntry,
    StructLayout, StructLayoutV,
};

verus! {

/// The classifications of a parameter list, in order.
pub open spec fn param_cats(ps: Seq<Param>) -> Seq<TypeCategory> {
    ps.map_values(|p: Param| spec_classify(p.ty@))
}

/// The classifications of a field list, in order.
pub open spec fn field_cats(fs: Seq<Field>) -> Seq<TypeCategory> {
    fs.map_values(|f: Field| spec_classify(f.ty@))
}

/// The views of a sequence of registration entries.
pub open spec fn entry_views(es: Seq<RegistrationEntry>) -> Seq<EntryV> {
    es.map_values(|e: RegistrationEntry| e@)
}

/// The entry generated for a free function.
pub open spec fn function_entry(prefix: Seq<u8>, f: FunctionDecl) -> EntryV {
    EntryV {
        name: function_ext_name(prefix, f.name@),
        action: ActionV::FreeCall {
            params: param_cats(f.params@),
            ret: spec_classify_ret(f.ret),
            target: f.name@,
        },
    }
}

/// The destructor entry of a structure, always generated.
pub open spec fn delete_entry(prefix: Seq<u8>, s: Structure) -> EntryV {
    EntryV {
        name: member_ext_name(prefix, s.name@, "delete".spec_bytes()),
        action: ActionV::Delete { structure: s.name@, tag: tag_of(s.name@) },
    }
}

/// The default-constructor entry, generated only without a user `new`.
pub open spec fn default_new_entry(prefix: Seq<u8>, s: Structure) -> EntryV {
    EntryV {
        name: member_ext_name(prefix, s.name@, "new".spec_bytes()),
        action: ActionV::DefaultNew {
            structure: s.name@,
            tag: tag_of(s.name@),
            field_cats: field_cats(s.fields@),
        },
    }
}

/// The getter entry of field `i` of a structure.
pub open spec fn getter_entry(prefix: Seq<u8>, s: Structure, i: int) -> EntryV {
    EntryV {
        name: member_ext_name(prefix, s.name@, getter_suffix(s.fields@[i].name@)),
        action: ActionV::GetField {
            structure: s.name@,
            tag: tag_of(s.name@),
            field: i as usize,
            cat: spec_classify(s.fields@[i].ty@),
        },
    }
}

/// The setter entry of field `i` of a structure.
pub open spec fn setter_entry(prefix: Seq<u8>, s: Structure, i: int) -> EntryV {
    EntryV {
        name: member_ext_name(prefix, s.name@, setter_suffix(s.fields@[i].name@)),
        action: ActionV::SetField {
            structure: s.name@,
            tag: tag_of(s.name@),
            field: i as usize,
            cat: spec_classify(s.fields@[i].ty@),
        },
    }
}

/// A getter is suppressed when a user method carries the getter's own
/// name or the bare field name.
pub open spec fn getter_suppressed(unit: BindingUnit, sname: Seq<u8>, fname: Seq<u8>) -> bool {
    unit_has_method(unit, sname, getter_suffix(fname)) || unit_has_method(unit, sname, fname)
}

/// A setter is suppressed when a user method carries the setter's name.
pub open spec fn setter_suppressed(unit: BindingUnit, sname: Seq<u8>, fname: Seq<u8>) -> bool {
    unit_has_method(unit, sname, setter_suffix(fname))
}

/// The accessor entries of the fields of `s` from index `i` on: getter
/// then setter per public field, in field order, minus the shadowed ones.
pub open spec fn field_entries(unit: BindingUnit, s: Structure, i: int) -> Seq<EntryV>
    decreases s.fields@.len() - i,
{
    if i < 0 || i >= s.fields@.len() {
        Seq::empty()
    } else {
        let f = s.fields@[i];
        let g: Seq<EntryV> = if f.public && !getter_suppressed(unit, s.name@, f.name@) {
            seq![getter_entry(unit.spec_prefix(), s, i)]
        } else {
            Seq::empty()
        };
        let t: Seq<EntryV> = if f.public && !setter_suppressed(unit, s.name@, f.name@) {
            seq![setter_entry(unit.spec_prefix(), s, i)]
        } else {
            Seq::empty()
        };
        g + t + field_entries(unit, s, i + 1)
    }
}

/// The destructor and constructor entries of a structure: the destructor
/// always, the default constructor exactly when no user `new` exists.
pub open spec fn structure_head(unit: BindingUnit, s: Structure) -> Seq<EntryV> {
    seq![delete_entry(unit.spec_prefix(), s)] + (if unit_has_custom_new(unit, s.name@) {
        Seq::<EntryV>::empty()
    } else {
        seq![default_new_entry(unit.spec_prefix(), s)]
    })
}

/// Everything generated for one structure declaration.
pub open spec fn structure_entries(unit: BindingUnit, s: Structure) -> Seq<EntryV> {
    structure_head(unit, s) + field_entries(unit, s, 0)
}

/// The custom-constructor entry generated for a user `new` method.
pub open spec fn custom_new_entry(prefix: Seq<u8>, owner: Seq<u8>, m: Method) -> EntryV {
    EntryV {
        name: member_ext_name(prefix, owner, "new".spec_bytes()),
        action: ActionV::CustomNew {
            structure: owner,
            tag: tag_of(owner),
            params: param_cats(m.params@),
        },
    }
}

/// The instance-method entry generated for a receiver-taking method.
pub open spec fn method_entry(prefix: Seq<u8>, owner: Seq<u8>, m: Method) -> EntryV {
    EntryV {
        name: member_ext_name(prefix, owner, m.name@),
        action: ActionV::MethodCall {
            structure: owner,
            tag: tag_of(owner),
            method: m.name@,
            params: param_cats(m.params@),
            ret: spec_classify_ret(m.ret),
        },
    }
}

/// The entries of a method block from method index `j` on: a public
/// method named `new` becomes the custom constructor; a public
/// receiver-taking method becomes an instance-method trampoline; anything
/// else — non-public methods included — is passed through ungenerated
/// (though every method, public or not, still counts for shadowing).
pub open spec fn block_entries(prefix: Seq<u8>, b: MethodBlock, j: int) -> Seq<EntryV>
    decreases b.methods@.len() - j,
{
    if j < 0 || j >= b.methods@.len() {
        Seq::empty()
    } else {
        let m = b.methods@[j];
        let e: Seq<EntryV> = if m.public && m.name@ == "new".spec_bytes() {
            seq![custom_new_entry(prefix, b.owner@, m)]
        } else if m.public && m.has_receiver {
            seq![method_entry(prefix, b.owner@, m)]
        } else {
            Seq::empty()
        };
        e + block_entries(prefix, b, j + 1)
    }
}

/// Everything generated for one declaration.
pub open spec fn decl_entries(unit: BindingUnit, d: Declaration) -> Seq<EntryV> {
    match d {
        Declaration::Function(f) => seq![function_entry(unit.spec_prefix(), f)],
        Declaration::Structure(s) => structure_entries(unit, s),
        Declaration::Methods(b) => block_entries(unit.spec_prefix(), b, 0),
    }
}

/// The whole registration table of a unit, from declaration `i` on, in
/// generation order.
pub open spec fn unit_entries_from(unit: BindingUnit, i: int) -> Seq<EntryV>
    decreases unit.declarations@.len() - i,
{
    if i < 0 || i >= unit.declarations@.len() {
        Seq::empty()
    } else {
        decl_entries(unit, unit.declarations@[i]) + unit_entries_from(unit, i + 1)
    }
}

/// The whole registration table of a unit, in generation order.
pub open spec fn unit_entries(unit: BindingUnit) -> Seq<EntryV> {
    unit_entries_from(unit, 0)
}

/// The layout derived from a structure declaration.
pub open spec fn structure_layout(s: Structure) -> StructLayoutV {
    StructLayoutV {
        name: s.name@,
        tag: tag_of(s.name@),
        fields: s.fields@.map_values(
            |f: Field| FieldLayoutV { name: f.name@, public: f.public, cat: spec_classify(f.ty@) },
        ),
    }
}

/// The layouts of the unit's structures from declaration `i` on, in
/// declaration order.
pub open spec fn unit_layouts_from(unit: BindingUnit, i: int) -> Seq<StructLayoutV>
    decreases unit.declarations@.len() - i,
{
    if i < 0 || i >= unit.declarations@.len() {
        Seq::empty()
    } else {
        (match unit.declarations@[i] {
            Declaration::Structure(s) => seq![structure_layout(s)],
            _ => Seq::<StructLayoutV>::empty(),
        }) + unit_layouts_from(unit, i + 1)
    }
}

/// The layouts of the unit's structures, in declaration order.
pub open spec fn unit_layouts(unit: BindingUnit) -> Seq<StructLayoutV> {
    unit_layouts_from(unit, 0)
}

/// The external names of a sequence of entries, in order.
pub open spec fn entry_names(es: Seq<EntryV>) -> Seq<Seq<u8>> {
    es.map_values(|e: EntryV| e.name)
}

/// No two entries share an external name.
pub open spec fn distinct_names(ns: Seq<Seq<u8>>) -> bool {
    forall|a: int, b: int| 0 <= a < b < ns.len() ==> ns[a] != ns[b]
}

/// Classify a parameter list.
fn classify_params(ps: &Vec<Param>) -> (r: Vec<TypeCategory>)
    ensures
        r@ == param_cats(ps@),
{
    let n: usize = ps.len();
    let mut r: Vec<TypeCategory> = Vec::new();
    let mut i: usize = 0;
    while i < n
        invariant
            n == ps@.len(),
            i <= n,
            r@.len() == i,
            forall|k: int| 0 <= k < i ==> r@[k] == spec_classify((#[trigger] ps@[k]).ty@),
        decreases n - i,
    {
        r.push(classify(ps[i].ty.as_slice()));
        i += 1;
    }
    proof {
        assert(r@ =~= param_cats(ps@));
    }
    r
}

/// Classify a field list.
fn classify_fields(fs: &Vec<Field>) -> (r: Vec<TypeCategory>)
    ensures
        r@ == field_cats(fs@),
{
    let n: usize = fs.len();
    let mut r: Vec<TypeCategory> = Vec::new();
    let mut i: usize = 0;
    while i < n
        invariant
            n == fs@.len(),
            i <= n,
            r@.len() == i,
            forall|k: int| 0 <= k < i ==> r@[k] == spec_classify((#[trigger] fs@[k]).ty@),
        decreases n - i,
    {
        r.push(classify(fs[i].ty.as_slice()));
        i += 1;
    }
    proof {
        assert(r@ =~= field_cats(fs@));
    }
    r
}

/// Classify a declared return type.
fn classify_ret(r: &Option<Vec<u8>>) -> (c: Option<TypeCategory>)
    ensures
        c == spec_classify_ret(*r),
{
    match r {
        Option::Some(t) => Some(classify(t.as_slice())),
        Option::None => None,
    }
}

/// Generate the trampoline entry of a free function.
pub fn generate_function(unit: &BindingUnit, f: &FunctionDecl) -> (e: RegistrationEntry)
    ensures
        e@ == function_entry(unit.spec_prefix(), *f),
{
    let name = make_function_name(unit, f.name.as_slice());
    let params = classify_params(&f.params);
    let ret = classify_ret(&f.ret);
    RegistrationEntry {
        external_name: name,
        action: Action::FreeCall { params, ret, target: copy_bytes(&f.name) },
    }
}

/// Generate everything for one structure declaration: the destructor, the
/// default constructor unless a user `new` suppresses it, and the
/// accessors of the public fields minus the shadowed ones.
pub fn generate_structure(unit: &BindingUnit, facts: &ShadowFacts, s: &Structure) -> (es: Vec<
    RegistrationEntry,
>)
    requires
        facts.wf(),
        facts.source@ == *unit,
    ensures
        entry_views(es@) == structure_entries(*unit, *s),
{
    let mut es: Vec<RegistrationEntry> = Vec::new();
    let dname = make_member_name(unit, s.name.as_slice(), "delete".as_bytes());
    es.push(
        RegistrationEntry {
            external_name: dname,
            action: Action::Delete {
                structure: copy_bytes(&s.name),
                tag: make_tag(s.name.as_slice()),
            },
        },
    );
    proof {
        assert(entry_views(es@) =~= seq![delete_entry(unit.spec_prefix(), *s)]);
    }
    if !has_custom_new(facts, s.name.as_slice()) {
        let nname = make_member_name(unit, s.name.as_slice(), "new".as_bytes());
        let cats = classify_fields(&s.fields);
        es.push(
            RegistrationEntry {
                external_name: nname,
                action: Action::DefaultNew {
                    structure: copy_bytes(&s.name),
                    tag: make_tag(s.name.as_slice()),
                    field_cats: cats,
                },
            },
        );
        proof {
            assert(entry_views(es@) =~= structure_head(*unit, *s));
        }
    } else {
        proof {
            assert(entry_views(es@) =~= structure_head(*unit, *s));
        }
    }
    let nf: usize = s.fields.len();
    let mut i: usize = 0;
    while i < nf
        invariant
            facts.wf(),
            facts.source@ == *unit,
            nf == s.fields@.len(),
            i <= nf,
            entry_views(es@) + field_entries(*unit, *s, i as int) == structure_entries(*unit, *s),
        decreases nf - i,
    {
        let ghost before = entry_views(es@);
        let f = &s.fields[i];
        if f.public {
            let mut gname: Vec<u8> = Vec::new();
            append_lit(&mut gname, "get_");
            append_bytes(&mut gname, f.name.as_slice());
            let shadowed_getter = has_method(facts, s.name.as_slice(), gname.as_slice())
                || has_method(facts, s.name.as_slice(), f.name.as_slice());
            if !shadowed_getter {
                let ename = make_accessor_name(unit, s.name.as_slice(), "get_", f.name.as_slice());
                es.push(
                    RegistrationEntry {
                        external_name: ename,
                        action: Action::GetField {
                            structure: copy_bytes(&s.name),
                            tag: make_tag(s.name.as_slice()),
                            field: i,
                            cat: classify(f.ty.as_slice()),
                        },
                    },
                );
                proof {
                    assert(entry_views(es@) =~= before + seq![
                        getter_entry(unit.spec_prefix(), *s, i as int),
                    ]);
                }
            }
            let ghost mid = entry_views(es@);
            let mut sname_suffix: Vec<u8> = Vec::new();
            append_lit(&mut sname_suffix, "set_");
            append_bytes(&mut sname_suffix, f.name.as_slice());
            let shadowed_setter = has_method(facts, s.name.as_slice(), sname_suffix.as_slice());
            if !shadowed_setter {
                let ename = make_accessor_name(unit, s.name.as_slice(), "set_", f.name.as_slice());
                es.push(
                    RegistrationEntry {
                        external_name: ename,
                        action: Action::SetField {
                            structure: copy_bytes(&s.name),
                            tag: make_tag(s.name.as_slice()),
                            field: i,
                            cat: classify(f.ty.as_slice()),
                        },
                    },
                );
                proof {
                    assert(entry_views(es@) =~= mid + seq![
                        setter_entry(unit.spec_prefix(), *s, i as int),
                    ]);
                }
            }
        }
        proof {
            assert(entry_views(es@) + field_entries(*unit, *s, i + 1) =~= structure_entries(
                *unit,
                *s,
            ));
        }
        i += 1;
    }
    proof {
        assert(field_entries(*unit, *s, nf as int) =~= Seq::<EntryV>::empty());
        assert(entry_views(es@) =~= structure_entries(*unit, *s));
    }
    es
}

/// Generate everything for one method block: a custom constructor for a
/// method named `new`, an instance-method trampoline for each
/// receiver-taking method.
pub fn generate_method_block(unit: &BindingUnit, b: &MethodBlock) -> (es: Vec<RegistrationEntry>)
    ensures
        entry_views(es@) == block_entries(unit.spec_prefix(), *b, 0),
{
    let mut es: Vec<RegistrationEntry> = Vec::new();
    let nm: usize = b.methods.len();
    let mut j: usize = 0;
    while j < nm
        invariant
            nm == b.methods@.len(),
            j <= nm,
            entry_views(es@) + block_entries(unit.spec_prefix(), *b, j as int) == block_entries(
                unit.spec_prefix(),
                *b,
                0,
            ),
        decreases nm - j,
    {
        let ghost before = entry_views(es@);
        let m = &b.methods[j];
        if !m.public {
            proof {
                assert(entry_views(es@) + block_entries(unit.spec_prefix(), *b, j + 1)
                    =~= block_entries(unit.spec_prefix(), *b, 0));
            }
            j += 1;
            continue;
        }
        if crate::bytes::eq_lit(m.name.as_slice(), "new") {
            let name = make_member_name(unit, b.owner.as_slice(), "new".as_bytes());
            let params = classify_params(&m.params);
            es.push(
                RegistrationEntry {
                    external_name: name,
                    action: Action::CustomNew {
                        structure: copy_bytes(&b.owner),
                        tag: make_tag(b.owner.as_slice()),
                        params,
                    },
                },
            );
            proof {
                assert(entry_views(es@) =~= before + seq![
                    custom_new_entry(unit.spec_prefix(), b.owner@, b.methods@[j as int]),
                ]);
            }
        } else if m.has_receiver {
            let name = make_member_name(unit, b.owner.as_slice(), m.name.as_slice());
            let params = classify_params(&m.params);
            let ret = classify_ret(&m.ret);
            es.push(
                RegistrationEntry {
                    external_name: name,
                    action: Action::MethodCall {
                        structure: copy_bytes(&b.owner),
                        tag: make_tag(b.owner.as_slice()),
                        method: copy_bytes(&m.name),
                        params,
                        ret,
                    },
                },
            );
            proof {
                assert(entry_views(es@) =~= before + seq![
                    method_entry(unit.spec_prefix(), b.owner@, b.methods@[j as int]),
                ]);
            }
        }
        proof {
            assert(entry_views(es@) + block_entries(unit.spec_prefix(), *b, j + 1)
                =~= block_entries(unit.spec_prefix(), *b, 0));
        }
        j += 1;
    }
    proof {
        assert(entry_views(es@) =~= block_entries(unit.spec_prefix(), *b, 0));
    }
    es
}

/// Build the layout of one structure declaration.
pub fn build_layout(s: &Structure) -> (l: StructLayout)
    ensures
        l@ == structure_layout(*s),
{
    let nf: usize = s.fields.len();
    let mut fields: Vec<FieldLayout> = Vec::new();
    let mut i: usize = 0;
    while i < nf
        invariant
            nf == s.fields@.len(),
            i <= nf,
            fields@.len() == i,
            forall|k: int|
                0 <= k < i ==> (#[trigger] fields@[k])@ == (FieldLayoutV {
                    name: s.fields@[k].name@,
                    public: s.fields@[k].public,
                    cat: spec_classify(s.fields@[k].ty@),
                }),
        decreases nf - i,
    {
        let f = &s.fields[i];
        fields.push(
            FieldLayout {
                name: copy_bytes(&f.name),
                public: f.public,
                cat: classify(f.ty.as_slice()),
            },
        );
        i += 1;
    }
    let l = StructLayout {
        name: copy_bytes(&s.name),
        tag: make_tag(s.name.as_slice()),
        fields,
    };
    proof {
        assert(l@.fields =~= structure_layout(*s).fields);
        assert(l@ == structure_layout(*s));
    }
    l
}

/// Search the finished table for two entries sharing an external name.
pub fn find_duplicate(es: &Vec<RegistrationEntry>) -> (r: Option<Vec<u8>>)
    ensures
        match r {
            Some(n) => exists|a: int, b: int|
                0 <= a < b < es@.len() && entry_views(es@)[a].name == entry_views(es@)[b].name
                    && n@ == entry_views(es@)[a].name,
            None => distinct_names(entry_names(entry_views(es@))),
        },
{
    let n: usize = es.len();
    let mut a: usize = 0;
    while a < n
        invariant
            n == es@.len(),
            a <= n,
            forall|a2: int, b2: int|
                0 <= a2 < b2 < n && a2 < a ==> entry_views(es@)[a2].name != entry_views(
                    es@,
                )[b2].name,
        decreases n - a,
    {
        let mut b: usize = a + 1;
        while b < n
            invariant
                n == es@.len(),
                a < n,
                a < b,
                b <= n,
                forall|b2: int|
                    a < b2 < b ==> entry_views(es@)[a as int].name != entry_views(es@)[b2].name,
            decreases n - b,
        {
            if bytes_eq(&es[a].external_name, &es[b].external_name) {
                proof {
                    assert(entry_views(es@)[a as int].name == es@[a as int].external_name@);
                    assert(entry_views(es@)[b as int].name == es@[b as int].external_name@);
                }
                return Some(copy_bytes(&es[a].external_name));
            }
            proof {
                assert(entry_views(es@)[a as int].name == es@[a as int].external_name@);
                assert(entry_views(es@)[b as int].name == es@[b as int].external_name@);
            }
            b += 1;
        }
        a += 1;
    }
    proof {
        assert forall|a2: int, b2: int|
            0 <= a2 < b2 < entry_names(entry_views(es@)).len() implies entry_names(
            entry_views(es@),
        )[a2] != entry_names(entry_views(es@))[b2] by {
            assert(entry_names(entry_views(es@))[a2] == entry_views(es@)[a2].name);
            assert(entry_names(entry_views(es@))[b2] == entry_views(es@)[b2].name);
        }
    }
    None
}

/// A generation-time failure: no partial output is valid.
pub enum GenError {
    /// Two trampolines derived the same external name.
    DuplicateName { name: Vec<u8> },
    /// Strict classification refused a type expression instead of
    /// falling back to the numeric cast target.
    UnresolvableType { ty: Vec<u8> },
}

/// The generator's combined output: the original declarations preserved
/// unchanged, the structure layouts, and the registration table.
pub struct GenOutput {
    pub source: BindingUnit,
    pub layouts: Vec<StructLayout>,
    pub table: Vec<RegistrationEntry>,
}

/// Generate a whole binding unit: resolve shadows first, then derive the
/// table in declaration order, then reject duplicate external names.
pub fn generate_unit(unit: BindingUnit) -> (r: Result<GenOutput, GenError>)
    ensures
        match r {
            Result::Ok(out) => {
                &&& out.source == unit
                &&& entry_views(out.table@) == unit_entries(unit)
                &&& layout_views(out.layouts@) == unit_layouts(unit)
                &&& distinct_names(entry_names(unit_entries(unit)))
            },
            Result::Err(e) => {
                &&& e matches GenError::DuplicateName { name }
                &&& exists|a: int, b: int|
                    0 <= a < b < unit_entries(unit).len() && unit_entries(unit)[a].name
                        == unit_entries(unit)[b].name && name@ == unit_entries(unit)[a].name
            },
        },
        (r is Err) == !distinct_names(entry_names(unit_entries(unit))),
{
    let facts = resolve_shadows(&unit);
    let nd: usize = unit.declarations.len();
    let mut table: Vec<RegistrationEntry> = Vec::new();
    let mut layouts: Vec<StructLayout> = Vec::new();
    let mut i: usize = 0;
    while i < nd
        invariant
            facts.wf(),
            facts.source@ == unit,
            nd == unit.declarations@.len(),
            i <= nd,
            entry_views(table@) + unit_entries_from(unit, i as int) == unit_entries(unit),
            layout_views(layouts@) + unit_layouts_from(unit, i as int) == unit_layouts(unit),
        decreases nd - i,
    {
        let ghost tbefore = entry_views(table@);
        let ghost lbefore = layout_views(layouts@);
        match &unit.declarations[i] {
            Declaration::Function(f) => {
                let e = generate_function(&unit, f);
                table.push(e);
                proof {
                    assert(entry_views(table@) =~= tbefore + decl_entries(
                        unit,
                        unit.declarations@[i as int],
                    ));
                }
            },
            Declaration::Structure(s) => {
                let mut es = generate_structure(&unit, &facts, s);
                let ghost esv = entry_views(es@);
                append_entries(&mut table, es);
                let l = build_layout(s);
                layouts.push(l);
                proof {
                    assert(entry_views(table@) =~= tbefore + decl_entries(
                        unit,
                        unit.declarations@[i as int],
                    ));
                    assert(layout_views(layouts@) =~= lbefore + seq![
                        structure_layout(unit.declarations@[i as int]->Structure_0),
                    ]);
                }
            },
            Declaration::Methods(b) => {
                let es = generate_method_block(&unit, b);
                append_entries(&mut table, es);
                proof {
                    assert(entry_views(table@) =~= tbefore + decl_entries(
                        unit,
                        unit.declarations@[i as int],
                    ));
                }
            },
        }
        proof {
            assert(entry_views(table@) + unit_entries_from(unit, i + 1) =~= unit_entries(unit));
            assert(layout_views(layouts@) + unit_layouts_from(unit, i + 1) =~= unit_layouts(
                unit,
            ));
        }
        i += 1;
    }
    proof {
        assert(entry_views(table@) =~= unit_entries(unit));
        assert(layout_views(layouts@) =~= unit_layouts(unit));
    }
    match find_duplicate(&table) {
        Option::Some(name) => {
            proof {
                let (a, b): (int, int) = choose|a: int, b: int|
                    0 <= a < b < table@.len() && entry_views(table@)[a].name == entry_views(
                        table@,
                    )[b].name && name@ == entry_views(table@)[a].name;
                assert(entry_names(unit_entries(unit))[a] == unit_entries(unit)[a].name);
                assert(entry_names(unit_entries(unit))[b] == unit_entries(unit)[b].name);
                assert(!distinct_names(entry_names(unit_entries(unit))));
            }
            Err(GenError::DuplicateName { name })
        },
        Option::None => {
            proof {
                assert forall|a2: int, b2: int|
                    0 <= a2 < b2 < unit_entries(unit).len() implies unit_entries(unit)[a2].name
                    != unit_entries(unit)[b2].name by {
                    assert(entry_names(unit_entries(unit))[a2] == unit_entries(unit)[a2].name);
                    assert(entry_names(unit_entries(unit))[b2] == unit_entries(unit)[b2].name);
                }
            }
            Ok(GenOutput { source: unit, layouts, table })
        },
    }
}

/// Move the entries of `es` onto the end of `table`.
fn append_entries(table: &mut Vec<RegistrationEntry>, es: Vec<RegistrationEntry>)
    ensures
        final(table)@ == old(table)@ + es@,
{
    let mut es = es;
    let n: usize = es.len();
    let ghost esv = es@;
    let mut i: usize = 0;
    while i < n
        invariant
            es@ == esv.skip(i as int),
            n == esv.len(),
            i <= n,
            table@ == old(table)@ + esv.take(i as int),
        decreases n - i,
    {
        let e = es.remove(0);
        proof {
            assert(e == esv[i as int]);
        }
        table.push(e);
        proof {
            assert(es@ =~= esv.skip(i + 1));
            assert(table@ =~= old(table)@ + esv.take(i + 1));
        }
        i += 1;
    }
    proof {
        assert(old(table)@ + esv.take(n as int) =~= old(table)@ + esv);
    }
}

/// Are all parameter types of the list recognized by the classifier?
pub open spec fn params_recognized(ps: Seq<Param>) -> bool {
    forall|i: int| 0 <= i < ps.len() ==> is_recognized_name((#[trigger] ps[i]).ty@)
}

/// Is the declared return type, if any, recognized?
pub open spec fn ret_recognized(r: Option<Vec<u8>>) -> bool {
    match r {
        Some(t) => is_recognized_name(t@),
        None => true,
    }
}

/// Are all field types of the list recognized?
pub open spec fn fields_recognized(fs: Seq<Field>) -> bool {
    forall|i: int| 0 <= i < fs.len() ==> is_recognized_name((#[trigger] fs[i]).ty@)
}

/// Are all type expressions of one declaration recognized?
pub open spec fn decl_types_recognized(d: Declaration) -> bool {
    match d {
        Declaration::Function(f) => params_recognized(f.params@) && ret_recognized(f.ret),
        Declaration::Structure(s) => fields_recognized(s.fields@),
        Declaration::Methods(b) => forall|j: int|
            0 <= j < b.methods@.len() ==> params_recognized((#[trigger] b.methods@[j]).params@)
                && ret_recognized(b.methods@[j].ret),
    }
}

/// Are all type expressions of the unit recognized?  Strict generation
/// demands this; lenient generation classifies the rest as numeric cast
/// targets.
pub open spec fn unit_types_recognized(unit: BindingUnit) -> bool {
    forall|i: int|
        0 <= i < unit.declarations@.len() ==> decl_types_recognized(
            #[trigger] unit.declarations@[i],
        )
}

/// Scan a parameter list for an unrecognized type expression.
fn scan_params_recognized(ps: &Vec<Param>) -> (r: Option<Vec<u8>>)
    ensures
        match r {
            Some(t) => !is_recognized_name(t@) && !params_recognized(ps@),
            None => params_recognized(ps@),
        },
{
    let n: usize = ps.len();
    let mut i: usize = 0;
    while i < n
        invariant
            n == ps@.len(),
            i <= n,
            forall|k: int| 0 <= k < i ==> is_recognized_name((#[trigger] ps@[k]).ty@),
        decreases n - i,
    {
        if !is_recognized_type(ps[i].ty.as_slice()) {
            return Some(copy_bytes(&ps[i].ty));
        }
        i += 1;
    }
    None
}

/// Scan a declared return type for an unrecognized expression.
fn scan_ret_recognized(r: &Option<Vec<u8>>) -> (o: Option<Vec<u8>>)
    ensures
        match o {
            Some(t) => !is_recognized_name(t@) && !ret_recognized(*r),
            None => ret_recognized(*r),
        },
{
    match r {
        Option::Some(t) => {
            if !is_recognized_type(t.as_slice()) {
                Some(copy_bytes(t))
            } else {
                None
            }
        },
        Option::None => None,
    }
}

/// Scan the whole unit for an unrecognized type expression.
fn find_unrecognized(unit: &BindingUnit) -> (r: Option<Vec<u8>>)
    ensures
        match r {
            Some(t) => !is_recognized_name(t@) && !unit_types_recognized(*unit),
            None => unit_types_recognized(*unit),
        },
{
    let nd: usize = unit.declarations.len();
    let mut i: usize = 0;
    while i < nd
        invariant
            nd == unit.declarations@.len(),
            i <= nd,
            forall|k: int|
                0 <= k < i ==> decl_types_recognized(#[trigger] unit.declarations@[k]),
        decreases nd - i,
    {
        match &unit.declarations[i] {
            Declaration::Function(f) => {
                match scan_params_recognized(&f.params) {
                    Option::Some(t) => {
                        proof {
                            assert(!decl_types_recognized(unit.declarations@[i as int]));
                        }
                        return Some(t);
                    },
                    Option::None => {},
                }
                match scan_ret_recognized(&f.ret) {
                    Option::Some(t) => {
                        proof {
                            assert(!decl_types_recognized(unit.declarations@[i as int]));
                        }
                        return Some(t);
                    },
                    Option::None => {},
                }
            },
            Declaration::Structure(s) => {
                let nf: usize = s.fields.len();
                let mut j: usize = 0;
                while j < nf
                    invariant
                        nd == unit.declarations@.len(),
                        i < nd,
                        unit.declarations@[i as int] matches Declaration::Structure(ss) && ss
                            == *s,
                        nf == s.fields@.len(),
                        j <= nf,
                        forall|k: int|
                            0 <= k < j ==> is_recognized_name((#[trigger] s.fields@[k]).ty@),
                    decreases nf - j,
                {
                    if !is_recognized_type(s.fields[j].ty.as_slice()) {
                        proof {
                            assert(!is_recognized_name(s.fields@[j as int].ty@));
                            assert(!fields_recognized(s.fields@));
                            assert(!decl_types_recognized(unit.declarations@[i as int]));
                        }
                        return Some(copy_bytes(&s.fields[j].ty));
                    }
                    j += 1;
                }
            },
            Declaration::Methods(b) => {
                let nm: usize = b.methods.len();
                let mut j: usize = 0;
                while j < nm
                    invariant
                        nd == unit.declarations@.len(),
                        i < nd,
                        unit.declarations@[i as int] matches Declaration::Methods(bb) && bb == *b,
                        nm == b.methods@.len(),
                        j <= nm,
                        forall|k: int|
                            0 <= k < j ==> params_recognized((#[trigger] b.methods@[k]).params@)
                                && ret_recognized(b.methods@[k].ret),
                    decreases nm - j,
                {
                    match scan_params_recognized(&b.methods[j].params) {
                        Option::Some(t) => {
                            proof {
                                assert(!params_recognized(
                                    (#[trigger] b.methods@[j as int]).params@,
                                ));
                                assert(!decl_types_recognized(unit.declarations@[i as int]));
                            }
                            return Some(t);
                        },
                        Option::None => {},
                    }
                    match scan_ret_recognized(&b.methods[j].ret) {
                        Option::Some(t) => {
                            proof {
                                assert(!ret_recognized((#[trigger] b.methods@[j as int]).ret));
                                assert(!decl_types_recognized(unit.declarations@[i as int]));
                            }
                            return Some(t);
                        },
                        Option::None => {},
                    }
                    j += 1;
                }
            },
        }
        i += 1;
    }
    None
}

/// Strict-mode generation: as [`generate_unit`], except that a type
/// expression the classifier does not recognize fails generation with a
/// diagnostic instead of silently marshalling as a number.
pub fn generate_unit_strict(unit: BindingUnit) -> (r: Result<GenOutput, GenError>)
    ensures
        match r {
            Result::Ok(out) => {
                &&& unit_types_recognized(unit)
                &&& out.source == unit
                &&& entry_views(out.table@) == unit_entries(unit)
                &&& layout_views(out.layouts@) == unit_layouts(unit)
                &&& distinct_names(entry_names(unit_entries(unit)))
            },
            Result::Err(e) => match e {
                GenError::UnresolvableType { ty } => !is_recognized_name(ty@)
                    && !unit_types_recognized(unit),
                GenError::DuplicateName { name } => unit_types_recognized(unit) && exists|
                    a: int,
                    b: int,
                |
                    0 <= a < b < unit_entries(unit).len() && unit_entries(unit)[a].name
                        == unit_entries(unit)[b].name && name@ == unit_entries(unit)[a].name,
            },
        },
        (r is Ok) == (unit_types_recognized(unit) && distinct_names(
            entry_names(unit_entries(unit)),
        )),
{
    match find_unrecognized(&unit) {
        Option::Some(ty) => Err(GenError::UnresolvableType { ty }),
        Option::None => generate_unit(unit),
    }
}

} // verus!
