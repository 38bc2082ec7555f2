//! Trampoline descriptions and the registration table.
//!
//! A generated trampoline is data, not code: an [`Action`] carries
//! everything the call protocol needs to run the entry point — expected
//! argument categories, the owning structure's type tag, the field index
//! of an accessor, the return category.  A [`RegistrationEntry`] pairs an
//! external name with its action; the table of all entries, together with
//! one [`StructLayout`] per declared structure, is the generator's whole
//! output.

use vstd::prelude::*;

use crate::model::TypeCategory;
use crate::store::{FieldV, ObjectStore, ObjV};

verus! {

/// Layout of one field of a declared structure.
pub struct FieldLayout {
    pub name: Vec<u8>,
    pub public: bool,
    pub cat: TypeCategory,
}

/// Specification view of a field layout.
pub struct FieldLayoutV {
    pub name: Seq<u8>,
    pub public: bool,
    pub cat: TypeCategory,
}

impl View for FieldLayout {
    type V = FieldLayoutV;

    open spec fn view(&self) -> FieldLayoutV {
        FieldLayoutV { name: self.name@, public: self.public, cat: self.cat }
    }
}

/// Layout of one declared structure: its name, its runtime type tag, and
/// its fields in declaration order (private fields included — they occupy
/// field slots even though no accessors are generated for them).
pub struct StructLayout {
    pub name: Vec<u8>,
    pub tag: Vec<u8>,
    pub fields: Vec<FieldLayout>,
}

/// Specification view of a structure layout.
pub struct StructLayoutV {
    pub name: Seq<u8>,
    pub tag: Seq<u8>,
    pub fields: Seq<FieldLayoutV>,
}

impl View for StructLayout {
    type V = StructLayoutV;

    open spec fn view(&self) -> StructLayoutV {
        StructLayoutV {
            name: self.name@,
            tag: self.tag@,
            fields: self.fields@.map_values(|f: FieldLayout| f@),
        }
    }
}

/// What one generated trampoline does when the host runtime invokes it.
pub enum Action {
    /// Check and extract the declared parameters, then hand the call to
    /// the named free function.
    FreeCall { params: Vec<TypeCategory>, ret: Option<TypeCategory>, target: Vec<u8> },
    /// Allocate an instance with field-wise default values and return its
    /// tagged handle.  Generated only for structures without a custom
    /// constructor.
    DefaultNew { structure: Vec<u8>, tag: Vec<u8>, field_cats: Vec<TypeCategory> },
    /// Check and extract the constructor parameters, then hand the call to
    /// the structure's own constructor; the produced instance is boxed and
    /// tag-returned by `finish_construct`.
    CustomNew { structure: Vec<u8>, tag: Vec<u8>, params: Vec<TypeCategory> },
    /// Reclaim the instance a handle refers to.  A null handle is
    /// tolerated and does nothing.
    Delete { structure: Vec<u8>, tag: Vec<u8> },
    /// Read one field of the receiver and return it by the conversion
    /// rules of the protocol.
    GetField { structure: Vec<u8>, tag: Vec<u8>, field: usize, cat: TypeCategory },
    /// Overwrite one field of the receiver with the extracted value
    /// argument.
    SetField { structure: Vec<u8>, tag: Vec<u8>, field: usize, cat: TypeCategory },
    /// Check the receiver and the declared parameters, then hand the call
    /// to the named method of the owning structure.
    MethodCall {
        structure: Vec<u8>,
        tag: Vec<u8>,
        method: Vec<u8>,
        params: Vec<TypeCategory>,
        ret: Option<TypeCategory>,
    },
}

/// Specification view of an action.
pub enum ActionV {
    FreeCall { params: Seq<TypeCategory>, ret: Option<TypeCategory>, target: Seq<u8> },
    DefaultNew { structure: Seq<u8>, tag: Seq<u8>, field_cats: Seq<TypeCategory> },
    CustomNew { structure: Seq<u8>, tag: Seq<u8>, params: Seq<TypeCategory> },
    Delete { structure: Seq<u8>, tag: Seq<u8> },
    GetField { structure: Seq<u8>, tag: Seq<u8>, field: usize, cat: TypeCategory },
    SetField { structure: Seq<u8>, tag: Seq<u8>, field: usize, cat: TypeCategory },
    MethodCall {
        structure: Seq<u8>,
        tag: Seq<u8>,
        method: Seq<u8>,
        params: Seq<TypeCategory>,
        ret: Option<TypeCategory>,
    },
}

impl View for Action {
    type V = ActionV;

    open spec fn view(&self) -> ActionV {
        match self {
            Action::FreeCall { params, ret, target } => ActionV::FreeCall {
                params: params@,
                ret: *ret,
                target: target@,
            },
            Action::DefaultNew { structure, tag, field_cats } => ActionV::DefaultNew {
                structure: structure@,
                tag: tag@,
                field_cats: field_cats@,
            },
            Action::CustomNew { structure, tag, params } => ActionV::CustomNew {
                structure: structure@,
                tag: tag@,
                params: params@,
            },
            Action::Delete { structure, tag } => ActionV::Delete {
                structure: structure@,
                tag: tag@,
            },
            Action::GetField { structure, tag, field, cat } => ActionV::GetField {
                structure: structure@,
                tag: tag@,
                field: *field,
                cat: *cat,
            },
            Action::SetField { structure, tag, field, cat } => ActionV::SetField {
                structure: structure@,
                tag: tag@,
                field: *field,
                cat: *cat,
            },
            Action::MethodCall { structure, tag, method, params, ret } => ActionV::MethodCall {
                structure: structure@,
                tag: tag@,
                method: method@,
                params: params@,
                ret: *ret,
            },
        }
    }
}

/// One row of the registration table: the external name (null-terminated
/// on emission) and the trampoline it resolves to.
pub struct RegistrationEntry {
    pub external_name: Vec<u8>,
    pub action: Action,
}

/// Specification view of a registration entry.
pub struct EntryV {
    pub name: Seq<u8>,
    pub action: ActionV,
}

impl View for RegistrationEntry {
    type V = EntryV;

    open spec fn view(&self) -> EntryV {
        EntryV { name: self.external_name@, action: self.action@ }
    }
}

/// The number of call-stack arguments a trampoline demands, exactly: the
/// declared parameter count, plus one for the receiver of methods and
/// accessors.
pub open spec fn arity_of(a: ActionV) -> nat {
    match a {
        ActionV::FreeCall { params, .. } => params.len(),
        ActionV::DefaultNew { .. } => 0,
        ActionV::CustomNew { params, .. } => params.len(),
        ActionV::Delete { .. } => 1,
        ActionV::GetField { .. } => 1,
        ActionV::SetField { .. } => 2,
        ActionV::MethodCall { params, .. } => params.len() + 1,
    }
}

/// A parameter category as the classifier produces it: well-formed and
/// never opaque.
pub open spec fn param_cat_ok(c: TypeCategory) -> bool {
    c.wf() && !(c is Opaque)
}

/// All parameter categories of a sequence are classifier-produced.
pub open spec fn param_cats_ok(cs: Seq<TypeCategory>) -> bool {
    forall|i: int| 0 <= i < cs.len() ==> param_cat_ok(#[trigger] cs[i])
}

/// Does a stored field value have the shape its declared category asks
/// for?
pub open spec fn value_fits(v: FieldV, cat: TypeCategory) -> bool {
    match cat {
        TypeCategory::Integer { .. } => v is Num,
        TypeCategory::Float { .. } => v is Num,
        TypeCategory::Boolean => v is Truth,
        TypeCategory::Text => v is Text,
        TypeCategory::Opaque => false,
    }
}

/// Do an instance's fields match a structure layout, field for field?
pub open spec fn fields_conform(fs: Seq<FieldV>, fl: Seq<FieldLayoutV>) -> bool {
    &&& fs.len() == fl.len()
    &&& forall|j: int| 0 <= j < fs.len() ==> value_fits(#[trigger] fs[j], fl[j].cat)
}

/// Does an instance conform to some layout carrying its tag?
pub open spec fn obj_conforms(o: ObjV, layouts: Seq<StructLayoutV>) -> bool {
    exists|k: int|
        0 <= k < layouts.len() && (#[trigger] layouts[k]).tag == o.tag && fields_conform(
            o.fields,
            layouts[k].fields,
        )
}

/// Distinct layouts carry distinct tags, so a tag picks out one layout.
pub open spec fn layouts_wf(layouts: Seq<StructLayoutV>) -> bool {
    forall|k1: int, k2: int|
        0 <= k1 < k2 < layouts.len() ==> (#[trigger] layouts[k1]).tag != (
        #[trigger] layouts[k2]).tag
}

/// The store invariant the protocol maintains: every live instance
/// conforms to the layout of its tag.
pub open spec fn store_wf(store: ObjectStore, layouts: Seq<StructLayoutV>) -> bool {
    forall|i: int|
        0 <= i < store@.len() && (#[trigger] store@[i]).content is Some ==> obj_conforms(
            store@[i].content->0,
            layouts,
        )
}

/// The views of a vector of structure layouts.
pub open spec fn layout_views(ls: Seq<StructLayout>) -> Seq<StructLayoutV> {
    ls.map_values(|l: StructLayout| l@)
}

/// The categories of a layout's fields, in order.
pub open spec fn layout_cats(l: StructLayoutV) -> Seq<TypeCategory> {
    l.fields.map_values(|f: FieldLayoutV| f.cat)
}

/// Is an action consistent with the layouts it will run against?
/// Generation guarantees this for every entry of a generated table.
pub open spec fn action_wf(a: ActionV, layouts: Seq<StructLayoutV>) -> bool {
    match a {
        ActionV::FreeCall { params, .. } => param_cats_ok(params),
        ActionV::DefaultNew { tag, field_cats, .. } => exists|k: int|
            0 <= k < layouts.len() && (#[trigger] layouts[k]).tag == tag && field_cats
                == layout_cats(layouts[k]) && param_cats_ok(field_cats),
        ActionV::CustomNew { params, .. } => param_cats_ok(params),
        ActionV::Delete { .. } => true,
        ActionV::GetField { tag, field, cat, .. } => exists|k: int|
            0 <= k < layouts.len() && (#[trigger] layouts[k]).tag == tag && field
                < layouts[k].fields.len() && layouts[k].fields[field as int].cat == cat
                && param_cat_ok(cat),
        ActionV::SetField { tag, field, cat, .. } => exists|k: int|
            0 <= k < layouts.len() && (#[trigger] layouts[k]).tag == tag && field
                < layouts[k].fields.len() && layouts[k].fields[field as int].cat == cat
                && param_cat_ok(cat),
        ActionV::MethodCall { params, .. } => param_cats_ok(params),
    }
}

} // verus!
