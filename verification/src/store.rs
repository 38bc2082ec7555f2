//! The object store: an arena of boxed structure instances indexed by
//! generation-stamped handles.
//!
//! An opaque handle handed to the host runtime is a pair of slot index and
//! generation stamp.  Deleting an instance vacates its slot and advances
//! the slot's stamp, so a stale handle never resolves again: use after free
//! is rejected by construction, not by luck.  A slot whose stamp is
//! exhausted is retired and never reused.  Each stored object carries the
//! type tag of the structure it was constructed from; resolving a handle
//! checks index, stamp, and tag before any field is touched.

use vstd::prelude::*;

use crate::bytes::{bytes_eq, copy_bytes};

verus! {

/// A natively held field value.
#[derive(Debug, PartialEq, Eq)]
pub enum FieldValue {
    /// A number, narrowed to the field's declared width.
    Num(i64),
    /// A truth value.
    Truth(bool),
    /// An owned text value.
    Text(Vec<u8>),
}

/// Specification view of a field value.
pub enum FieldV {
    Num(i64),
    Truth(bool),
    Text(Seq<u8>),
}

impl View for FieldValue {
    type V = FieldV;

    open spec fn view(&self) -> FieldV {
        match self {
            FieldValue::Num(n) => FieldV::Num(*n),
            FieldValue::Truth(b) => FieldV::Truth(*b),
            FieldValue::Text(t) => FieldV::Text(t@),
        }
    }
}

/// An opaque handle: slot index plus generation stamp.
#[derive(Clone, Copy, PartialEq, Eq, Structural, Debug)]
pub struct Handle {
    pub index: usize,
    pub generation: u64,
}

/// A tagged value in a call-stack slot or the return slot.
#[derive(Debug, PartialEq, Eq)]
pub enum SlotValue {
    /// A numeric slot (the runtime carries these in double precision).
    Number(i64),
    /// A string slot.
    Text(Vec<u8>),
    /// A pointer slot: an opaque handle, or null.
    Pointer(Option<Handle>),
}

/// Specification view of a stack-slot value.
pub enum SlotV {
    Number(i64),
    Text(Seq<u8>),
    Pointer(Option<Handle>),
}

impl View for SlotValue {
    type V = SlotV;

    open spec fn view(&self) -> SlotV {
        match self {
            SlotValue::Number(n) => SlotV::Number(*n),
            SlotValue::Text(t) => SlotV::Text(t@),
            SlotValue::Pointer(p) => SlotV::Pointer(*p),
        }
    }
}

/// A boxed structure instance: its type tag and its field values.
pub struct Object {
    pub tag: Vec<u8>,
    pub fields: Vec<FieldValue>,
}

/// Specification view of a stored object.
pub struct ObjV {
    pub tag: Seq<u8>,
    pub fields: Seq<FieldV>,
}

impl View for Object {
    type V = ObjV;

    open spec fn view(&self) -> ObjV {
        ObjV { tag: self.tag@, fields: self.fields@.map_values(|f: FieldValue| f@) }
    }
}

/// One arena slot: its current generation stamp and its content.
pub struct StoreSlot {
    pub generation: u64,
    pub content: Option<Object>,
}

/// Specification view of an arena slot.
pub struct SlotRecordV {
    pub generation: u64,
    pub content: Option<ObjV>,
}

impl View for StoreSlot {
    type V = SlotRecordV;

    open spec fn view(&self) -> SlotRecordV {
        SlotRecordV {
            generation: self.generation,
            content: match &self.content {
                Some(o) => Some(o@),
                None => None,
            },
        }
    }
}

/// The arena of live structure instances.
pub struct ObjectStore {
    pub slots: Vec<StoreSlot>,
}

impl View for ObjectStore {
    type V = Seq<SlotRecordV>;

    open spec fn view(&self) -> Seq<SlotRecordV> {
        self.slots@.map_values(|s: StoreSlot| s@)
    }
}

impl ObjectStore {
    /// Does `h` refer to a live instance?
    pub open spec fn live(self, h: Handle) -> bool {
        &&& h.index < self@.len()
        &&& self@[h.index as int].generation == h.generation
        &&& self@[h.index as int].content is Some
    }

    /// The instance a live handle refers to.
    pub open spec fn object_v(self, h: Handle) -> ObjV
        recommends
            self.live(h),
    {
        self@[h.index as int].content->0
    }

    /// Every handle live in `self` is live in `post` and refers to the
    /// same instance.
    pub open spec fn preserved_in(self, post: ObjectStore) -> bool {
        forall|h: Handle|
            self.live(h) ==> #[trigger] post.live(h) && post.object_v(h) == self.object_v(h)
    }

    /// An empty store.
    pub fn new_store() -> (r: ObjectStore)
        ensures
            r@.len() == 0,
    {
        ObjectStore { slots: Vec::new() }
    }

    /// Place a new instance into the arena, reusing a vacant slot when one
    /// is available, and hand back a fresh handle to it.
    pub fn allocate(&mut self, obj: Object) -> (h: Handle)
        ensures
            final(self).live(h),
            final(self).object_v(h) == obj@,
            !old(self).live(h),
            h.index < final(self)@.len(),
            final(self)@[h.index as int] == (SlotRecordV {
                generation: h.generation,
                content: Some(obj@),
            }),
            forall|j: int|
                0 <= j < old(self)@.len() && j != h.index ==> final(self)@[j] == old(self)@[j],
            final(self)@.len() == (if h.index < old(self)@.len() {
                old(self)@.len()
            } else {
                old(self)@.len() + 1
            }),
            old(self).preserved_in(*final(self)),
            forall|h2: Handle| final(self).live(h2) && h2 != h ==> old(self).live(h2),
    {
        let ghost ov = obj@;
        let n: usize = self.slots.len();
        let mut i: usize = 0;
        while i < n
            invariant
                self@ == old(self)@,
                obj@ == ov,
                n == self@.len(),
                i <= n,
            decreases n - i,
        {
            let vacant: bool = match &self.slots[i].content {
                Option::None => true,
                Option::Some(_) => false,
            };
            if vacant && self.slots[i].generation < u64::MAX {
                let g: u64 = self.slots[i].generation;
                let h = Handle { index: i, generation: g };
                proof {
                    assert(old(self)@[i as int].content is None);
                }
                self.slots.set(i, StoreSlot { generation: g, content: Some(obj) });
                proof {
                    assert forall|j: int| 0 <= j < self@.len() && j != i implies self@[j]
                        == old(self)@[j] by {
                        assert(self@[j] == self.slots@[j]@);
                        assert(old(self)@[j] == old(self).slots@[j]@);
                    }
                    assert(self@[i as int] == self.slots@[i as int]@);
                    assert(self@ =~= old(self)@.update(
                        i as int,
                        SlotRecordV { generation: g, content: Some(ov) },
                    ));
                    assert forall|h2: Handle| old(self).live(h2) implies self.live(h2)
                        && self.object_v(h2) == old(self).object_v(h2) by {
                        assert(h2.index != i);
                    }
                }
                return h;
            }
            i += 1;
        }
        let g: u64 = 0;
        let h = Handle { index: n, generation: g };
        self.slots.push(StoreSlot { generation: g, content: Some(obj) });
        proof {
            assert(self@ =~= old(self)@.push(SlotRecordV { generation: g, content: Some(ov) }));
            assert forall|h2: Handle| old(self).live(h2) implies self.live(h2)
                && self.object_v(h2) == old(self).object_v(h2) by {
                assert(self@[h2.index as int] == old(self)@[h2.index as int]);
            }
        }
        h
    }

    /// Does `h` resolve to a live instance carrying the expected tag?  On
    /// success, the instance's slot index.
    pub fn resolve(&self, h: &Handle, tag: &Vec<u8>) -> (r: Option<usize>)
        ensures
            match r {
                Some(i) => i == h.index && self.live(*h) && self.object_v(*h).tag == tag@,
                None => !(self.live(*h) && self.object_v(*h).tag == tag@),
            },
    {
        if h.index >= self.slots.len() {
            return None;
        }
        if self.slots[h.index].generation != h.generation {
            return None;
        }
        match &self.slots[h.index].content {
            Option::Some(o) => {
                if bytes_eq(&o.tag, tag) {
                    Some(h.index)
                } else {
                    None
                }
            },
            Option::None => None,
        }
    }

    /// Vacate slot `i` and advance its generation stamp, so that every
    /// handle stamped with the old generation is dead from now on.
    pub fn release(&mut self, i: usize)
        requires
            i < old(self)@.len(),
            old(self)@[i as int].content is Some,
        ensures
            final(self)@.len() == old(self)@.len(),
            forall|j: int|
                0 <= j < old(self)@.len() && j != i ==> final(self)@[j] == old(self)@[j],
            final(self)@[i as int].content is None,
            forall|h2: Handle|
                old(self).live(h2) && h2.index != i ==> #[trigger] final(self).live(h2)
                    && final(self).object_v(h2) == old(self).object_v(h2),
            forall|h2: Handle| final(self).live(h2) ==> old(self).live(h2) && h2.index != i,
    {
        let g: u64 = self.slots[i].generation;
        let ng: u64 = if g < u64::MAX {
            g + 1
        } else {
            g
        };
        self.slots.set(i, StoreSlot { generation: ng, content: None });
        proof {
            assert(self@ =~= old(self)@.update(
                i as int,
                SlotRecordV { generation: ng, content: None },
            ));
        }
    }

    /// Read field `f` of the instance in slot `i`.
    pub fn read_field(&self, i: usize, f: usize) -> (r: &FieldValue)
        requires
            i < self@.len(),
            self@[i as int].content is Some,
            f < self@[i as int].content->0.fields.len(),
        ensures
            r@ == self@[i as int].content->0.fields[f as int],
    {
        match &self.slots[i].content {
            Option::Some(o) => &o.fields[f],
            Option::None => vstd::pervasive::unreached(),
        }
    }

    /// Overwrite field `f` of the instance in slot `i` in place.
    pub fn put_field(&mut self, i: usize, f: usize, v: FieldValue)
        requires
            i < old(self)@.len(),
            old(self)@[i as int].content is Some,
            f < old(self)@[i as int].content->0.fields.len(),
        ensures
            final(self)@.len() == old(self)@.len(),
            forall|j: int|
                0 <= j < old(self)@.len() && j != i ==> final(self)@[j] == old(self)@[j],
            final(self)@[i as int].generation == old(self)@[i as int].generation,
            final(self)@[i as int].content == Some(ObjV {
                tag: old(self)@[i as int].content->0.tag,
                fields: old(self)@[i as int].content->0.fields.update(f as int, v@),
            }),
    {
        let ghost vv = v@;
        let ghost oldobj = old(self)@[i as int].content->0;
        let mut slot = self.slots.remove(i);
        let g: u64 = slot.generation;
        match slot.content {
            Option::Some(mut o) => {
                proof {
                    assert(old(self)@[i as int] == old(self).slots@[i as int]@);
                    assert(o@ == oldobj);
                }
                let ghost f0 = o.fields@;
                o.fields.set(f, v);
                proof {
                    assert(o@.fields =~= oldobj.fields.update(f as int, vv)) by {
                        assert(o.fields@ == f0.update(f as int, v));
                        assert forall|k: int| 0 <= k < o.fields@.len() implies o@.fields[k]
                            == oldobj.fields.update(f as int, vv)[k] by {
                            assert(o@.fields[k] == o.fields@[k]@);
                            assert(oldobj.fields[k] == f0[k]@);
                        }
                    }
                }
                let ghost newobj = o@;
                self.slots.insert(i, StoreSlot { generation: g, content: Some(o) });
                proof {
                    assert(self.slots@ =~= old(self).slots@.update(
                        i as int,
                        self.slots@[i as int],
                    ));
                    assert forall|j: int| 0 <= j < self@.len() && j != i implies self@[j]
                        == old(self)@[j] by {
                        assert(self@[j] == self.slots@[j]@);
                        assert(old(self)@[j] == old(self).slots@[j]@);
                    }
                    assert(self@[i as int] == self.slots@[i as int]@);
                    assert(self@[i as int].content == Some(newobj));
                    assert(newobj == ObjV {
                        tag: oldobj.tag,
                        fields: oldobj.fields.update(f as int, vv),
                    });
                }
            },
            Option::None => {
                proof {
                    assert(old(self)@[i as int] == old(self).slots@[i as int]@);
                    assert(false);
                }
            },
        }
    }
}

} // verus!
