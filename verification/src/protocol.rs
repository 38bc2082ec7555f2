//! The calling-convention protocol every generated trampoline follows.
//!
//! When the host runtime invokes an entry point: (1) the argument count
//! must equal the expected arity exactly; (2) each argument is checked
//! left to right — numeric categories demand a numeric slot, text demands
//! a string slot, a receiver demands a pointer slot whose tag matches the
//! expected structure — and the first failing check stops the call before
//! anything is extracted; (3) arguments are extracted with the numeric
//! narrowing of [`crate::numeric`], text copied into natively owned
//! strings, receivers resolved through the store; (4) the underlying
//! function or method body runs; (5) the return value, if any, is
//! converted back into the single return slot.  A rejected call reports a
//! [`RuntimeError`] and has no side effects.
//!
//! Steps 1–3 and 5 are implemented here, verified; step 4 belongs to the
//! native bodies themselves, which [`invoke`] hands back as a
//! [`PreparedCall`] or [`PreparedConstruct`] for the host to run.
//! Accessor, default-constructor, and destructor trampolines have no
//! native body, so [`invoke`] completes them outright.
//!
//! The protocol makes no thread-safety promise: invoking trampolines from
//! several threads against one store is the caller's problem to
//! serialize, exactly as with any other mutable access to the store.

use vstd::prelude::*;

use crate::bytes::copy_bytes;
use crate::model::TypeCategory;
use crate::numeric::{
    cast_integer, round_mantissa_i64, round_to_double, spec_cast_integer, spec_round,
    spec_round_f64,
};
use crate::store::{FieldV, FieldValue, Handle, Object, ObjectStore, ObjV, SlotV, SlotValue};
use crate::table::{
    action_wf, arity_of, fields_conform, layout_cats, layout_views, layouts_wf, obj_conforms,
    param_cat_ok, param_cats_ok, store_wf, value_fits, Action, ActionV, FieldLayout, StructLayout,
    StructLayoutV,
};

verus! {

/// The kind of value a call-stack slot must hold for a check to pass.
#[derive(Clone, Copy, PartialEq, Eq, Structural, Debug)]
pub enum SlotKind {
    NumberSlot,
    TextSlot,
    PointerSlot,
}

/// A rejected call: reported to the host runtime through its
/// error-reporting primitive; the call performs no work.  Positions are
/// 1-based stack positions.
#[derive(Clone, Copy, PartialEq, Eq, Structural, Debug)]
pub enum RuntimeError {
    /// The argument count differs from the expected arity.
    ArityMismatch { expected: usize, actual: usize },
    /// The slot at `position` does not hold the kind of value the
    /// declared category requires.
    WrongArgumentKind { position: usize, wanted: SlotKind },
    /// The pointer at `position` is null, stale, or tagged for a
    /// different structure.
    InvalidPointer { position: usize },
}

/// The views of a vector of stack slots.
pub open spec fn slot_views(args: Seq<SlotValue>) -> Seq<SlotV> {
    args.map_values(|a: SlotValue| a@)
}

/// The slot kind a category requires.
pub open spec fn required_kind(cat: TypeCategory) -> SlotKind {
    match cat {
        TypeCategory::Integer { .. } => SlotKind::NumberSlot,
        TypeCategory::Float { .. } => SlotKind::NumberSlot,
        TypeCategory::Boolean => SlotKind::NumberSlot,
        TypeCategory::Text => SlotKind::TextSlot,
        TypeCategory::Opaque => SlotKind::PointerSlot,
    }
}

/// Does a slot hold the kind of value a non-receiver category requires?
pub open spec fn kind_ok(cat: TypeCategory, s: SlotV) -> bool {
    match cat {
        TypeCategory::Integer { .. } => s is Number,
        TypeCategory::Float { .. } => s is Number,
        TypeCategory::Boolean => s is Number,
        TypeCategory::Text => s is Text,
        TypeCategory::Opaque => false,
    }
}

/// The number a numeric slot holds.
pub open spec fn num_of(s: SlotV) -> i64 {
    match s {
        SlotV::Number(n) => n,
        _ => 0,
    }
}

/// The text a string slot holds.
pub open spec fn text_of(s: SlotV) -> Seq<u8> {
    match s {
        SlotV::Text(t) => t,
        _ => Seq::empty(),
    }
}

/// The left-to-right parameter check of step 2, over the declared
/// categories: the error of the first failing position, or `None` when
/// every check passes.  `offset` is the number of stack slots before the
/// first parameter (one for a receiver).
pub open spec fn scan_params(
    params: Seq<TypeCategory>,
    args: Seq<SlotV>,
    offset: int,
    i: int,
) -> Option<RuntimeError>
    decreases params.len() - i,
{
    if i < 0 || i >= params.len() {
        None
    } else if !kind_ok(params[i], args[offset + i]) {
        Some(
            RuntimeError::WrongArgumentKind {
                position: (offset + i + 1) as usize,
                wanted: required_kind(params[i]),
            },
        )
    } else {
        scan_params(params, args, offset, i + 1)
    }
}

/// The receiver check at stack position `pos`: the slot must be a
/// pointer, non-null, live, and tagged for the expected structure.
pub open spec fn recv_check(
    store: ObjectStore,
    tag: Seq<u8>,
    s: SlotV,
    pos: usize,
) -> Option<RuntimeError> {
    match s {
        SlotV::Pointer(p) => match p {
            Some(h) => if store.live(h) && store.object_v(h).tag == tag {
                None
            } else {
                Some(RuntimeError::InvalidPointer { position: pos })
            },
            None => Some(RuntimeError::InvalidPointer { position: pos }),
        },
        _ => Some(RuntimeError::WrongArgumentKind { position: pos, wanted: SlotKind::PointerSlot }),
    }
}

/// The destructor's receiver check: as [`recv_check`], except that a null
/// handle is tolerated (the destructor then does nothing).
pub open spec fn delete_recv_check(
    store: ObjectStore,
    tag: Seq<u8>,
    s: SlotV,
    pos: usize,
) -> Option<RuntimeError> {
    match s {
        SlotV::Pointer(p) => match p {
            Some(h) => if store.live(h) && store.object_v(h).tag == tag {
                None
            } else {
                Some(RuntimeError::InvalidPointer { position: pos })
            },
            None => None,
        },
        _ => Some(RuntimeError::WrongArgumentKind { position: pos, wanted: SlotKind::PointerSlot }),
    }
}

/// Step 3's extraction of one checked slot: numbers are narrowed to the
/// declared width and signedness (single-precision floats round to a
/// 24-bit significand), booleans read zero as false and anything else as
/// true, text is copied.
pub open spec fn spec_extract(s: SlotV, cat: TypeCategory) -> FieldV {
    match cat {
        TypeCategory::Integer { bits, signed } => FieldV::Num(
            spec_cast_integer(num_of(s) as int, bits as nat, signed) as i64,
        ),
        TypeCategory::Float { bits } => if bits == 32 {
            FieldV::Num(spec_round(num_of(s) as int, 24) as i64)
        } else {
            FieldV::Num(num_of(s))
        },
        TypeCategory::Boolean => FieldV::Truth(num_of(s) != 0),
        TypeCategory::Text => FieldV::Text(text_of(s)),
        TypeCategory::Opaque => FieldV::Num(0),
    }
}

/// The extracted native arguments of a fully checked parameter list.
pub open spec fn extracted(
    params: Seq<TypeCategory>,
    args: Seq<SlotV>,
    offset: int,
) -> Seq<FieldV> {
    Seq::new(params.len(), |i: int| spec_extract(args[offset + i], params[i]))
}

/// The field-wise default value of a category: zero, false, or empty
/// text.
pub open spec fn default_field(cat: TypeCategory) -> FieldV {
    match cat {
        TypeCategory::Integer { .. } => FieldV::Num(0),
        TypeCategory::Float { .. } => FieldV::Num(0),
        TypeCategory::Boolean => FieldV::Truth(false),
        TypeCategory::Text => FieldV::Text(Seq::empty()),
        TypeCategory::Opaque => FieldV::Num(0),
    }
}

/// The default field values of a default-constructed instance.
pub open spec fn defaults_of(cats: Seq<TypeCategory>) -> Seq<FieldV> {
    Seq::new(cats.len(), |i: int| default_field(cats[i]))
}

/// Step 5's return conversion: numbers round through the
/// double-precision return slot, booleans become one or zero, text is
/// copied into a runtime-owned string.
pub open spec fn spec_return_slot(v: FieldV) -> SlotV {
    match v {
        FieldV::Num(n) => SlotV::Number(spec_round_f64(n as int) as i64),
        FieldV::Truth(b) => SlotV::Number(
            if b {
                1
            } else {
                0
            },
        ),
        FieldV::Text(t) => SlotV::Text(t),
    }
}

/// An extraction always produces a value fitting the declared category.
pub proof fn lemma_extract_fits(s: SlotV, cat: TypeCategory)
    requires
        !(cat is Opaque),
    ensures
        value_fits(spec_extract(s, cat), cat),
{
}

/// Skipping an already-checked prefix does not change the scan result.
proof fn lemma_scan_from(params: Seq<TypeCategory>, args: Seq<SlotV>, offset: int, i: int)
    requires
        0 <= i <= params.len(),
        forall|k: int| 0 <= k < i ==> kind_ok(#[trigger] params[k], args[offset + k]),
    ensures
        scan_params(params, args, offset, 0) == scan_params(params, args, offset, i),
    decreases i,
{
    if i > 0 {
        lemma_scan_from(params, args, offset, i - 1);
        assert(kind_ok(params[i - 1], args[offset + i - 1]));
    }
}

/// Run the per-parameter checks of step 2, left to right.
pub fn check_params(params: &Vec<TypeCategory>, args: &Vec<SlotValue>, offset: usize) -> (r:
    Option<RuntimeError>)
    requires
        args@.len() == params@.len() + offset,
    ensures
        r == scan_params(params@, slot_views(args@), offset as int, 0),
{
    let n: usize = params.len();
    let m: usize = args.len();
    let mut i: usize = 0;
    while i < n
        invariant
            n == params@.len(),
            m == args@.len(),
            m == n + offset,
            i <= n,
            forall|k: int|
                0 <= k < i ==> kind_ok(
                    #[trigger] params@[k],
                    slot_views(args@)[offset + k],
                ),
        decreases n - i,
    {
        let ok: bool = match (&params[i], &args[offset + i]) {
            (TypeCategory::Integer { .. }, SlotValue::Number(_)) => true,
            (TypeCategory::Float { .. }, SlotValue::Number(_)) => true,
            (TypeCategory::Boolean, SlotValue::Number(_)) => true,
            (TypeCategory::Text, SlotValue::Text(_)) => true,
            _ => false,
        };
        if !ok {
            let kind: SlotKind = match &params[i] {
                TypeCategory::Text => SlotKind::TextSlot,
                TypeCategory::Opaque => SlotKind::PointerSlot,
                _ => SlotKind::NumberSlot,
            };
            proof {
                lemma_scan_from(params@, slot_views(args@), offset as int, i as int);
                assert(!kind_ok(params@[i as int], slot_views(args@)[offset + i]));
            }
            return Some(
                RuntimeError::WrongArgumentKind { position: offset + i + 1, wanted: kind },
            );
        }
        proof {
            assert(kind_ok(params@[i as int], slot_views(args@)[offset + i]));
        }
        i += 1;
    }
    proof {
        lemma_scan_from(params@, slot_views(args@), offset as int, n as int);
    }
    None
}

/// Extract one checked slot into a native value (step 3).
pub fn extract_value(slot: &SlotValue, cat: &TypeCategory) -> (v: FieldValue)
    requires
        cat.wf(),
        kind_ok(*cat, slot@),
    ensures
        v@ == spec_extract(slot@, *cat),
{
    match cat {
        TypeCategory::Integer { bits, signed } => {
            let n: i64 = match slot {
                SlotValue::Number(n) => *n,
                _ => vstd::pervasive::unreached(),
            };
            FieldValue::Num(cast_integer(n, *bits, *signed))
        },
        TypeCategory::Float { bits } => {
            let n: i64 = match slot {
                SlotValue::Number(n) => *n,
                _ => vstd::pervasive::unreached(),
            };
            if *bits == 32 {
                FieldValue::Num(round_mantissa_i64(n, 24))
            } else {
                FieldValue::Num(n)
            }
        },
        TypeCategory::Boolean => {
            let n: i64 = match slot {
                SlotValue::Number(n) => *n,
                _ => vstd::pervasive::unreached(),
            };
            FieldValue::Truth(n != 0)
        },
        TypeCategory::Text => {
            let t: &Vec<u8> = match slot {
                SlotValue::Text(t) => t,
                _ => vstd::pervasive::unreached(),
            };
            FieldValue::Text(copy_bytes(t))
        },
        TypeCategory::Opaque => vstd::pervasive::unreached(),
    }
}

/// Extract a fully checked parameter list (step 3), left to right.
pub fn extract_params(params: &Vec<TypeCategory>, args: &Vec<SlotValue>, offset: usize) -> (r: Vec<
    FieldValue,
>)
    requires
        args@.len() == params@.len() + offset,
        param_cats_ok(params@),
        scan_params(params@, slot_views(args@), offset as int, 0) is None,
    ensures
        r@.map_values(|v: FieldValue| v@) == extracted(
            params@,
            slot_views(args@),
            offset as int,
        ),
{
    proof {
        assert forall|k: int|
            0 <= k < params@.len() implies kind_ok(
            #[trigger] params@[k],
            slot_views(args@)[offset + k],
        ) by {
            lemma_scan_pass_all_ok(params@, slot_views(args@), offset as int, k);
        }
    }
    let n: usize = params.len();
    let m: usize = args.len();
    let mut r: Vec<FieldValue> = Vec::new();
    let mut i: usize = 0;
    while i < n
        invariant
            n == params@.len(),
            m == args@.len(),
            m == n + offset,
            param_cats_ok(params@),
            forall|k: int|
                0 <= k < n ==> kind_ok(#[trigger] params@[k], slot_views(args@)[offset + k]),
            i <= n,
            r@.len() == i,
            forall|k: int|
                0 <= k < i ==> #[trigger] r@[k]@ == spec_extract(
                    slot_views(args@)[offset + k],
                    params@[k],
                ),
        decreases n - i,
    {
        let v = extract_value(&args[offset + i], &params[i]);
        r.push(v);
        i += 1;
    }
    proof {
        assert(r@.map_values(|v: FieldValue| v@) =~= extracted(
            params@,
            slot_views(args@),
            offset as int,
        ));
    }
    r
}

/// If the whole scan passes, every single position's check passed.
proof fn lemma_scan_pass_all_ok(
    params: Seq<TypeCategory>,
    args: Seq<SlotV>,
    offset: int,
    k: int,
)
    requires
        scan_params(params, args, offset, 0) is None,
        0 <= k < params.len(),
    ensures
        kind_ok(params[k], args[offset + k]),
{
    lemma_scan_none_all_ok(params, args, offset, 0);
}

/// A scan that reported no failure saw every position pass its check.
proof fn lemma_scan_none_all_ok(params: Seq<TypeCategory>, args: Seq<SlotV>, offset: int, i: int)
    requires
        0 <= i <= params.len(),
        scan_params(params, args, offset, i) is None,
    ensures
        forall|k: int| i <= k < params.len() ==> kind_ok(#[trigger] params[k], args[offset + k]),
    decreases params.len() - i,
{
    if i < params.len() {
        lemma_scan_none_all_ok(params, args, offset, i + 1);
    }
}

/// Convert a native return value into the single return slot (step 5).
pub fn return_slot(v: &FieldValue) -> (s: SlotValue)
    ensures
        s@ == spec_return_slot(v@),
{
    match v {
        FieldValue::Num(n) => {
            let r: i64 = round_to_double(*n);
            SlotValue::Number(r)
        },
        FieldValue::Truth(b) => SlotValue::Number(
            if *b {
                1
            } else {
                0
            },
        ),
        FieldValue::Text(t) => SlotValue::Text(copy_bytes(t)),
    }
}

/// A checked, extracted call whose native body the host must now run: the
/// target function or method, the receiver's slot index if any, and the
/// extracted arguments in declaration order.
pub struct PreparedCall {
    pub owner: Option<Vec<u8>>,
    pub name: Vec<u8>,
    pub receiver: Option<usize>,
    pub args: Vec<FieldValue>,
    pub ret: Option<TypeCategory>,
}

/// Specification view of a prepared call.
pub struct PreparedCallV {
    pub owner: Option<Seq<u8>>,
    pub name: Seq<u8>,
    pub receiver: Option<usize>,
    pub args: Seq<FieldV>,
    pub ret: Option<TypeCategory>,
}

impl View for PreparedCall {
    type V = PreparedCallV;

    open spec fn view(&self) -> PreparedCallV {
        PreparedCallV {
            owner: match &self.owner {
                Some(o) => Some(o@),
                None => None,
            },
            name: self.name@,
            receiver: self.receiver,
            args: self.args@.map_values(|v: FieldValue| v@),
            ret: self.ret,
        }
    }
}

/// A checked, extracted constructor call: the host runs the structure's
/// own constructor on `args` and hands the produced field values to
/// [`finish_construct`], which boxes and tag-returns them.
pub struct PreparedConstruct {
    pub structure: Vec<u8>,
    pub tag: Vec<u8>,
    pub args: Vec<FieldValue>,
}

/// Specification view of a prepared construction.
pub struct PreparedConstructV {
    pub structure: Seq<u8>,
    pub tag: Seq<u8>,
    pub args: Seq<FieldV>,
}

impl View for PreparedConstruct {
    type V = PreparedConstructV;

    open spec fn view(&self) -> PreparedConstructV {
        PreparedConstructV {
            structure: self.structure@,
            tag: self.tag@,
            args: self.args@.map_values(|v: FieldValue| v@),
        }
    }
}

/// What a successfully checked invocation produced.
pub enum Outcome {
    /// The trampoline completed by itself; the optional return slot.
    Done(Option<SlotValue>),
    /// Checks and extraction passed; the host must run the named body.
    NeedsBody(PreparedCall),
    /// Checks and extraction passed; the host must run the constructor.
    NeedsConstruct(PreparedConstruct),
}

/// Specification view of an outcome.
pub enum OutcomeV {
    Done(Option<SlotV>),
    NeedsBody(PreparedCallV),
    NeedsConstruct(PreparedConstructV),
}

impl View for Outcome {
    type V = OutcomeV;

    open spec fn view(&self) -> OutcomeV {
        match self {
            Outcome::Done(s) => OutcomeV::Done(
                match s {
                    Some(v) => Some(v@),
                    None => None,
                },
            ),
            Outcome::NeedsBody(pc) => OutcomeV::NeedsBody(pc@),
            Outcome::NeedsConstruct(pc) => OutcomeV::NeedsConstruct(pc@),
        }
    }
}

/// The expected arity saturated into a reportable count.
pub open spec fn arity_usize(a: ActionV) -> usize {
    if arity_of(a) <= usize::MAX {
        arity_of(a) as usize
    } else {
        usize::MAX
    }
}

/// Steps 1 and 2 of the protocol: the arity check, then the left-to-right
/// argument checks; the first failure, or `None` when the call may
/// proceed to extraction.
pub open spec fn check_phase(store: ObjectStore, a: ActionV, args: Seq<SlotV>) -> Option<
    RuntimeError,
> {
    if args.len() != arity_of(a) {
        Some(
            RuntimeError::ArityMismatch { expected: arity_usize(a), actual: args.len() as usize },
        )
    } else {
        match a {
            ActionV::FreeCall { params, .. } => scan_params(params, args, 0, 0),
            ActionV::DefaultNew { .. } => None,
            ActionV::CustomNew { params, .. } => scan_params(params, args, 0, 0),
            ActionV::Delete { tag, .. } => delete_recv_check(store, tag, args[0], 1),
            ActionV::GetField { tag, .. } => recv_check(store, tag, args[0], 1),
            ActionV::SetField { tag, cat, .. } => match recv_check(store, tag, args[0], 1) {
                Some(e) => Some(e),
                None => scan_params(seq![cat], args, 1, 0),
            },
            ActionV::MethodCall { tag, params, .. } => match recv_check(
                store,
                tag,
                args[0],
                1,
            ) {
                Some(e) => Some(e),
                None => scan_params(params, args, 1, 0),
            },
        }
    }
}

/// The handle a pointer slot carries.
pub open spec fn ptr_handle(s: SlotV) -> Handle {
    match s {
        SlotV::Pointer(p) => match p {
            Some(h) => h,
            None => Handle { index: 0, generation: 0 },
        },
        _ => Handle { index: 0, generation: 0 },
    }
}

/// What an allocation did to the store: the handle is fresh, refers to
/// exactly `o`, and every previously live handle is untouched.
pub open spec fn alloc_post(pre: ObjectStore, post: ObjectStore, h: Handle, o: ObjV) -> bool {
    &&& post.live(h)
    &&& post.object_v(h) == o
    &&& !pre.live(h)
    &&& pre.preserved_in(post)
    &&& forall|h2: Handle| post.live(h2) && h2 != h ==> pre.live(h2)
}

/// What a deletion did to the store: the handle is dead, and every other
/// handle is untouched.
pub open spec fn delete_post(pre: ObjectStore, post: ObjectStore, h: Handle) -> bool {
    &&& !post.live(h)
    &&& forall|h2: Handle|
        h2 != h && pre.live(h2) ==> #[trigger] post.live(h2) && post.object_v(h2)
            == pre.object_v(h2)
    &&& forall|h2: Handle| #[trigger] post.live(h2) ==> pre.live(h2) && h2 != h
}

/// What a field write did to the store: only the named field of the
/// receiver's instance changed, to the extracted value.
pub open spec fn set_field_post(
    pre: ObjectStore,
    post: ObjectStore,
    h: Handle,
    field: int,
    nv: FieldV,
) -> bool {
    &&& post@.len() == pre@.len()
    &&& forall|j: int| 0 <= j < pre@.len() && j != h.index ==> post@[j] == pre@[j]
    &&& post@[h.index as int].generation == pre@[h.index as int].generation
    &&& post@[h.index as int].content == Some(
        ObjV {
            tag: pre.object_v(h).tag,
            fields: pre.object_v(h).fields.update(field, nv),
        },
    )
}

/// Step 3 onward for a call that passed its checks: what the store looks
/// like afterwards and what the invocation produced, per action.
pub open spec fn success_post(
    pre: ObjectStore,
    post: ObjectStore,
    a: ActionV,
    args: Seq<SlotV>,
    out: OutcomeV,
) -> bool {
    match a {
        ActionV::FreeCall { params, ret, target } => {
            &&& post@ == pre@
            &&& out matches OutcomeV::NeedsBody(pc)
            &&& out->NeedsBody_0.owner is None
            &&& out->NeedsBody_0.name == target
            &&& out->NeedsBody_0.receiver is None
            &&& out->NeedsBody_0.args == extracted(params, args, 0)
            &&& out->NeedsBody_0.ret == ret
        },
        ActionV::DefaultNew { tag, field_cats, .. } => exists|h: Handle|
            #![auto]
            alloc_post(pre, post, h, ObjV { tag: tag, fields: defaults_of(field_cats) }) && out
                == OutcomeV::Done(Some(SlotV::Pointer(Some(h)))),
        ActionV::CustomNew { structure, tag, params } => {
            &&& post@ == pre@
            &&& out matches OutcomeV::NeedsConstruct(pc)
            &&& out->NeedsConstruct_0.structure == structure
            &&& out->NeedsConstruct_0.tag == tag
            &&& out->NeedsConstruct_0.args == extracted(params, args, 0)
        },
        ActionV::Delete { .. } => {
            &&& match args[0] {
                SlotV::Pointer(p) => match p {
                    Some(h) => delete_post(pre, post, h),
                    None => post@ == pre@,
                },
                _ => false,
            }
            &&& out == OutcomeV::Done(None::<SlotV>)
        },
        ActionV::GetField { field, .. } => {
            &&& post@ == pre@
            &&& out == OutcomeV::Done(
                Some(spec_return_slot(pre.object_v(ptr_handle(args[0])).fields[field as int])),
            )
        },
        ActionV::SetField { field, cat, .. } => {
            &&& set_field_post(
                pre,
                post,
                ptr_handle(args[0]),
                field as int,
                spec_extract(args[1], cat),
            )
            &&& out == OutcomeV::Done(None::<SlotV>)
        },
        ActionV::MethodCall { structure, method, params, ret, .. } => {
            &&& post@ == pre@
            &&& out matches OutcomeV::NeedsBody(pc)
            &&& out->NeedsBody_0.owner == Some(structure)
            &&& out->NeedsBody_0.name == method
            &&& out->NeedsBody_0.receiver == Some(ptr_handle(args[0]).index)
            &&& out->NeedsBody_0.args == extracted(params, args, 1)
            &&& out->NeedsBody_0.ret == ret
        },
    }
}

/// A default value fits its category.
proof fn lemma_default_fits(cat: TypeCategory)
    requires
        !(cat is Opaque),
    ensures
        value_fits(default_field(cat), cat),
{
}

/// Build the field-wise default values of a default-constructed instance.
fn default_fields(cats: &Vec<TypeCategory>) -> (r: Vec<FieldValue>)
    ensures
        r@.map_values(|v: FieldValue| v@) == defaults_of(cats@),
{
    let n: usize = cats.len();
    let mut r: Vec<FieldValue> = Vec::new();
    let mut i: usize = 0;
    while i < n
        invariant
            n == cats@.len(),
            i <= n,
            r@.len() == i,
            forall|k: int| 0 <= k < i ==> #[trigger] r@[k]@ == default_field(cats@[k]),
        decreases n - i,
    {
        let v: FieldValue = match &cats[i] {
            TypeCategory::Integer { .. } => FieldValue::Num(0),
            TypeCategory::Float { .. } => FieldValue::Num(0),
            TypeCategory::Boolean => FieldValue::Truth(false),
            TypeCategory::Text => FieldValue::Text(Vec::new()),
            TypeCategory::Opaque => FieldValue::Num(0),
        };
        r.push(v);
        i += 1;
    }
    proof {
        assert(r@.map_values(|v: FieldValue| v@) =~= defaults_of(cats@));
    }
    r
}

/// Run one generated trampoline against a call stack and the object
/// store: the protocol's steps 1–3, and step 5 for the trampolines that
/// have no native body (accessors, the default constructor, the
/// destructor).  A failed check reports its error and leaves the store
/// untouched; a successful invocation either completes (`Done`) or hands
/// the checked, extracted call back for the host to run the body.
#[verifier::rlimit(50)]
pub fn invoke(
    layouts: &Vec<StructLayout>,
    action: &Action,
    args: &Vec<SlotValue>,
    store: &mut ObjectStore,
) -> (r: Result<Outcome, RuntimeError>)
    requires
        layouts_wf(layout_views(layouts@)),
        action_wf(action@, layout_views(layouts@)),
        store_wf(*old(store), layout_views(layouts@)),
    ensures
        store_wf(*final(store), layout_views(layouts@)),
        match r {
            Result::Err(e) => final(store)@ == old(store)@ && check_phase(
                *old(store),
                action@,
                slot_views(args@),
            ) == Some(e),
            Result::Ok(out) => check_phase(*old(store), action@, slot_views(args@)) is None
                && success_post(*old(store), *final(store), action@, slot_views(args@), out@),
        },
{
    let ghost lv = layout_views(layouts@);
    let ghost vargs = slot_views(args@);
    proof {
        assert forall|k: int| 0 <= k < args@.len() implies vargs[k] == args@[k]@ by {}
    }
    let na: usize = args.len();
    match action {
        Action::FreeCall { params, ret, target } => {
            let expected: usize = params.len();
            if na != expected {
                return Err(RuntimeError::ArityMismatch { expected, actual: na });
            }
            match check_params(params, args, 0) {
                Option::Some(e) => {
                    return Err(e);
                },
                Option::None => {},
            }
            let ex = extract_params(params, args, 0);
            let pc = PreparedCall {
                owner: None,
                name: copy_bytes(target),
                receiver: None,
                args: ex,
                ret: *ret,
            };
            Ok(Outcome::NeedsBody(pc))
        },
        Action::CustomNew { structure, tag, params } => {
            let expected: usize = params.len();
            if na != expected {
                return Err(RuntimeError::ArityMismatch { expected, actual: na });
            }
            match check_params(params, args, 0) {
                Option::Some(e) => {
                    return Err(e);
                },
                Option::None => {},
            }
            let ex = extract_params(params, args, 0);
            let pc = PreparedConstruct {
                structure: copy_bytes(structure),
                tag: copy_bytes(tag),
                args: ex,
            };
            Ok(Outcome::NeedsConstruct(pc))
        },
        Action::DefaultNew { structure, tag, field_cats } => {
            if na != 0 {
                return Err(RuntimeError::ArityMismatch { expected: 0, actual: na });
            }
            let fields = default_fields(field_cats);
            let obj = Object { tag: copy_bytes(tag), fields };
            proof {
                let k = choose|k: int|
                    0 <= k < lv.len() && (#[trigger] lv[k]).tag == tag@ && field_cats@
                        == layout_cats(lv[k]) && param_cats_ok(field_cats@);
                assert(obj@.fields == defaults_of(field_cats@));
                assert(fields_conform(obj@.fields, lv[k].fields)) by {
                    assert forall|j: int| 0 <= j < obj@.fields.len() implies value_fits(
                        #[trigger] obj@.fields[j],
                        lv[k].fields[j].cat,
                    ) by {
                        assert(lv[k].fields[j].cat == layout_cats(lv[k])[j]);
                        assert(field_cats@[j] == layout_cats(lv[k])[j]);
                        lemma_default_fits(field_cats@[j]);
                    }
                }
                assert(obj_conforms(obj@, lv));
            }
            let ghost ov = obj@;
            let h = store.allocate(obj);
            proof {
                assert forall|i: int|
                    0 <= i < store@.len() && (#[trigger] store@[i]).content is Some implies
                    obj_conforms(store@[i].content->0, lv) by {
                    if i == h.index {
                        assert(store@[i].content->0 == ov);
                    } else {
                        if i < old(store)@.len() {
                            assert(store@[i] == old(store)@[i]);
                        }
                    }
                }
                assert(alloc_post(
                    *old(store),
                    *store,
                    h,
                    ObjV { tag: tag@, fields: defaults_of(field_cats@) },
                ));
            }
            Ok(Outcome::Done(Some(SlotValue::Pointer(Some(h)))))
        },
        Action::Delete { structure, tag } => {
            if na != 1 {
                return Err(RuntimeError::ArityMismatch { expected: 1, actual: na });
            }
            match &args[0] {
                SlotValue::Pointer(p) => match p {
                    Option::Some(h) => {
                        match store.resolve(h, tag) {
                            Option::Some(i) => {
                                proof {
                                    assert(old(store)@[i as int].content is Some);
                                }
                                store.release(i);
                                proof {
                                    assert(delete_post(*old(store), *store, *h)) by {
                                        assert forall|h2: Handle|
                                            h2 != *h && old(store).live(h2) implies
                                            #[trigger] store.live(h2) && store.object_v(h2)
                                                == old(store).object_v(h2) by {
                                            if h2.index == h.index {
                                                assert(h2.generation == h.generation);
                                                assert(h2 == *h);
                                            }
                                        }
                                    }
                                    assert forall|i2: int|
                                        0 <= i2 < store@.len() && (
                                        #[trigger] store@[i2]).content is Some implies
                                        obj_conforms(store@[i2].content->0, lv) by {
                                        assert(i2 != i);
                                        assert(store@[i2] == old(store)@[i2]);
                                    }
                                }
                                Ok(Outcome::Done(None))
                            },
                            Option::None => Err(RuntimeError::InvalidPointer { position: 1 }),
                        }
                    },
                    Option::None => Ok(Outcome::Done(None)),
                },
                _ => Err(
                    RuntimeError::WrongArgumentKind {
                        position: 1,
                        wanted: SlotKind::PointerSlot,
                    },
                ),
            }
        },
        Action::GetField { structure, tag, field, cat } => {
            if na != 1 {
                return Err(RuntimeError::ArityMismatch { expected: 1, actual: na });
            }
            match &args[0] {
                SlotValue::Pointer(p) => match p {
                    Option::Some(h) => {
                        match store.resolve(h, tag) {
                            Option::Some(i) => {
                                proof {
                                    let o = store.object_v(*h);
                                    let ka = choose|k: int|
                                        0 <= k < lv.len() && (#[trigger] lv[k]).tag == tag@ && (
                                        *field) < lv[k].fields.len() && lv[k].fields[*field as int].cat
                                            == *cat && param_cat_ok(*cat);
                                    assert(obj_conforms(o, lv));
                                    let ko = choose|k: int|
                                        0 <= k < lv.len() && (#[trigger] lv[k]).tag == o.tag
                                            && fields_conform(o.fields, lv[k].fields);
                                    assert(ka == ko);
                                    assert((*field) < o.fields.len());
                                }
                                let fv = store.read_field(i, *field);
                                let s = return_slot(fv);
                                proof {
                                    assert(ptr_handle(vargs[0]) == *h);
                                    assert(s@ == spec_return_slot(
                                        old(store).object_v(*h).fields[*field as int],
                                    ));
                                }
                                Ok(Outcome::Done(Some(s)))
                            },
                            Option::None => Err(RuntimeError::InvalidPointer { position: 1 }),
                        }
                    },
                    Option::None => Err(RuntimeError::InvalidPointer { position: 1 }),
                },
                _ => Err(
                    RuntimeError::WrongArgumentKind {
                        position: 1,
                        wanted: SlotKind::PointerSlot,
                    },
                ),
            }
        },
        Action::SetField { structure, tag, field, cat } => {
            if na != 2 {
                return Err(RuntimeError::ArityMismatch { expected: 2, actual: na });
            }
            match &args[0] {
                SlotValue::Pointer(p) => match p {
                    Option::Some(h) => {
                        match store.resolve(h, tag) {
                            Option::Some(i) => {
                                let mut cats: Vec<TypeCategory> = Vec::new();
                                cats.push(*cat);
                                proof {
                                    assert(cats@ =~= seq![*cat]);
                                }
                                match check_params(&cats, args, 1) {
                                    Option::Some(e) => {
                                        return Err(e);
                                    },
                                    Option::None => {},
                                }
                                proof {
                                    assert(kind_ok(*cat, vargs[1]));
                                }
                                let nv = extract_value(&args[1], cat);
                                let ghost o = store.object_v(*h);
                                proof {
                                    let ka = choose|k: int|
                                        0 <= k < lv.len() && (#[trigger] lv[k]).tag == tag@ && (
                                        *field) < lv[k].fields.len() && lv[k].fields[*field as int].cat
                                            == *cat && param_cat_ok(*cat);
                                    assert(obj_conforms(o, lv));
                                    let ko = choose|k: int|
                                        0 <= k < lv.len() && (#[trigger] lv[k]).tag == o.tag
                                            && fields_conform(o.fields, lv[k].fields);
                                    assert(ka == ko);
                                    assert((*field) < o.fields.len());
                                }
                                store.put_field(i, *field, nv);
                                proof {
                                    let ka = choose|k: int|
                                        0 <= k < lv.len() && (#[trigger] lv[k]).tag == tag@ && (
                                        *field) < lv[k].fields.len() && lv[k].fields[*field as int].cat
                                            == *cat && param_cat_ok(*cat);
                                    let newo = ObjV {
                                        tag: o.tag,
                                        fields: o.fields.update(
                                            *field as int,
                                            spec_extract(vargs[1], *cat),
                                        ),
                                    };
                                    assert(fields_conform(newo.fields, lv[ka].fields)) by {
                                        assert(fields_conform(o.fields, lv[ka].fields));
                                        assert forall|j: int|
                                            0 <= j < newo.fields.len() implies value_fits(
                                            #[trigger] newo.fields[j],
                                            lv[ka].fields[j].cat,
                                        ) by {
                                            if j == *field as int {
                                                lemma_extract_fits(vargs[1], *cat);
                                            }
                                        }
                                    }
                                    assert(obj_conforms(newo, lv));
                                    assert forall|i2: int|
                                        0 <= i2 < store@.len() && (
                                        #[trigger] store@[i2]).content is Some implies
                                        obj_conforms(store@[i2].content->0, lv) by {
                                        if i2 == i as int {
                                            assert(store@[i2].content == Some(newo));
                                        } else {
                                            assert(store@[i2] == old(store)@[i2]);
                                        }
                                    }
                                    assert(set_field_post(
                                        *old(store),
                                        *store,
                                        *h,
                                        *field as int,
                                        spec_extract(vargs[1], *cat),
                                    ));
                                }
                                Ok(Outcome::Done(None))
                            },
                            Option::None => Err(RuntimeError::InvalidPointer { position: 1 }),
                        }
                    },
                    Option::None => Err(RuntimeError::InvalidPointer { position: 1 }),
                },
                _ => Err(
                    RuntimeError::WrongArgumentKind {
                        position: 1,
                        wanted: SlotKind::PointerSlot,
                    },
                ),
            }
        },
        Action::MethodCall { structure, tag, method, params, ret } => {
            let np: usize = params.len();
            if na == 0 || na - 1 != np {
                let expected: usize = if np == usize::MAX {
                    usize::MAX
                } else {
                    np + 1
                };
                return Err(RuntimeError::ArityMismatch { expected, actual: na });
            }
            match &args[0] {
                SlotValue::Pointer(p) => match p {
                    Option::Some(h) => {
                        match store.resolve(h, tag) {
                            Option::Some(i) => {
                                match check_params(params, args, 1) {
                                    Option::Some(e) => {
                                        return Err(e);
                                    },
                                    Option::None => {},
                                }
                                let ex = extract_params(params, args, 1);
                                let pc = PreparedCall {
                                    owner: Some(copy_bytes(structure)),
                                    name: copy_bytes(method),
                                    receiver: Some(i),
                                    args: ex,
                                    ret: *ret,
                                };
                                proof {
                                    assert(ptr_handle(vargs[0]) == *h);
                                }
                                Ok(Outcome::NeedsBody(pc))
                            },
                            Option::None => Err(RuntimeError::InvalidPointer { position: 1 }),
                        }
                    },
                    Option::None => Err(RuntimeError::InvalidPointer { position: 1 }),
                },
                _ => Err(
                    RuntimeError::WrongArgumentKind {
                        position: 1,
                        wanted: SlotKind::PointerSlot,
                    },
                ),
            }
        },
    }
}

/// Is there a layout for this tag that the produced field values
/// conform to?
pub open spec fn construct_ok(layouts: Seq<StructLayoutV>, tag: Seq<u8>, fs: Seq<FieldV>) -> bool {
    exists|k: int|
        0 <= k < layouts.len() && (#[trigger] layouts[k]).tag == tag && fields_conform(
            fs,
            layouts[k].fields,
        )
}

/// Find the layout carrying a tag.
pub fn find_layout(layouts: &Vec<StructLayout>, tag: &Vec<u8>) -> (r: Option<usize>)
    ensures
        match r {
            Some(k) => k < layouts@.len() && layout_views(layouts@)[k as int].tag == tag@,
            None => forall|k: int|
                0 <= k < layouts@.len() ==> layout_views(layouts@)[k].tag != tag@,
        },
{
    let n: usize = layouts.len();
    let mut k: usize = 0;
    while k < n
        invariant
            n == layouts@.len(),
            k <= n,
            forall|j: int| 0 <= j < k ==> layout_views(layouts@)[j].tag != tag@,
        decreases n - k,
    {
        if crate::bytes::bytes_eq(&layouts[k].tag, tag) {
            return Some(k);
        }
        k += 1;
    }
    None
}

/// Does a native value have the shape a category asks for?
pub fn value_fits_exec(v: &FieldValue, cat: &TypeCategory) -> (r: bool)
    ensures
        r == value_fits(v@, *cat),
{
    match (v, cat) {
        (FieldValue::Num(_), TypeCategory::Integer { .. }) => true,
        (FieldValue::Num(_), TypeCategory::Float { .. }) => true,
        (FieldValue::Truth(_), TypeCategory::Boolean) => true,
        (FieldValue::Text(_), TypeCategory::Text) => true,
        _ => false,
    }
}

/// Do the produced field values conform to a layout's fields?
pub fn fields_fit(fields: &Vec<FieldValue>, fl: &Vec<FieldLayout>) -> (r: bool)
    ensures
        r == fields_conform(
            fields@.map_values(|v: FieldValue| v@),
            fl@.map_values(|f: FieldLayout| f@),
        ),
{
    let ghost fsv = fields@.map_values(|v: FieldValue| v@);
    let ghost flv = fl@.map_values(|f: FieldLayout| f@);
    let n: usize = fields.len();
    if n != fl.len() {
        return false;
    }
    let mut j: usize = 0;
    while j < n
        invariant
            n == fields@.len() == fl@.len(),
            fsv == fields@.map_values(|v: FieldValue| v@),
            flv == fl@.map_values(|f: FieldLayout| f@),
            j <= n,
            forall|i: int| 0 <= i < j ==> value_fits(#[trigger] fsv[i], flv[i].cat),
        decreases n - j,
    {
        proof {
            assert(fsv[j as int] == fields@[j as int]@);
            assert(flv[j as int] == fl@[j as int]@);
        }
        if !value_fits_exec(&fields[j], &fl[j].cat) {
            return false;
        }
        j += 1;
    }
    true
}

/// The tail of the custom-constructor trampoline: box the field values
/// the structure's own constructor produced, under the structure's tag,
/// and return the fresh opaque handle as the return-slot value.  The
/// values are first checked against the structure's layout; `None` — with
/// the store untouched — when the tag has no layout or the values do not
/// conform.
pub fn finish_construct(
    layouts: &Vec<StructLayout>,
    tag: &Vec<u8>,
    fields: Vec<FieldValue>,
    store: &mut ObjectStore,
) -> (r: Option<SlotValue>)
    requires
        layouts_wf(layout_views(layouts@)),
        store_wf(*old(store), layout_views(layouts@)),
    ensures
        store_wf(*final(store), layout_views(layouts@)),
        match r {
            Some(s) => construct_ok(
                layout_views(layouts@),
                tag@,
                fields@.map_values(|v: FieldValue| v@),
            ) && exists|h: Handle|
                #![auto]
                s@ == SlotV::Pointer(Some(h)) && alloc_post(
                    *old(store),
                    *final(store),
                    h,
                    ObjV { tag: tag@, fields: fields@.map_values(|v: FieldValue| v@) },
                ),
            None => final(store)@ == old(store)@ && !construct_ok(
                layout_views(layouts@),
                tag@,
                fields@.map_values(|v: FieldValue| v@),
            ),
        },
{
    let ghost lv = layout_views(layouts@);
    let ghost fsv = fields@.map_values(|v: FieldValue| v@);
    let k: usize = match find_layout(layouts, tag) {
        Option::Some(k) => k,
        Option::None => {
            return None;
        },
    };
    if !fields_fit(&fields, &layouts[k].fields) {
        proof {
            assert(!construct_ok(lv, tag@, fsv)) by {
                if construct_ok(lv, tag@, fsv) {
                    let k2 = choose|k2: int|
                        0 <= k2 < lv.len() && (#[trigger] lv[k2]).tag == tag@ && fields_conform(
                            fsv,
                            lv[k2].fields,
                        );
                    assert(k2 == k);
                }
            }
        }
        return None;
    }
    let obj = Object { tag: crate::bytes::copy_bytes(tag), fields };
    proof {
        assert(obj@.fields == fsv);
        assert(obj_conforms(obj@, lv));
    }
    let ghost ov = obj@;
    let h = store.allocate(obj);
    proof {
        assert forall|i: int|
            0 <= i < store@.len() && (#[trigger] store@[i]).content is Some implies obj_conforms(
            store@[i].content->0,
            lv,
        ) by {
            if i == h.index {
                assert(store@[i].content->0 == ov);
            } else {
                if i < old(store)@.len() {
                    assert(store@[i] == old(store)@[i]);
                }
            }
        }
        assert(alloc_post(*old(store), *store, h, ObjV { tag: tag@, fields: fsv }));
    }
    Some(SlotValue::Pointer(Some(h)))
}

} // verus!
