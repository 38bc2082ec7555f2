use ring_codegen::generate::{generate_unit, GenOutput};
use ring_codegen::model::{
    BindingUnit, Declaration, Field, FunctionDecl, Method, MethodBlock, Param, Structure,
};
use ring_codegen::protocol::{
    finish_construct, invoke, return_slot, Outcome, RuntimeError, SlotKind,
};
use ring_codegen::store::{FieldValue, Handle, ObjectStore, SlotValue};
use ring_codegen::table::{Action, RegistrationEntry};

fn bytes(s: &str) -> Vec<u8> {
    s.as_bytes().to_vec()
}

fn param(name: &str, ty: &str) -> Param {
    Param { name: bytes(name), ty: bytes(ty) }
}

fn field(name: &str, ty: &str) -> Field {
    Field { name: bytes(name), public: true, ty: bytes(ty) }
}

/// A unit with two structures, a method block, and free functions of
/// arities zero through five.
fn demo_unit() -> BindingUnit {
    BindingUnit {
        prefix: Some(bytes("mylib")),
        declarations: vec![
            Declaration::Structure(Structure {
                name: bytes("Counter"),
                fields: vec![field("value", "i64"), field("name", "String")],
            }),
            Declaration::Structure(Structure {
                name: bytes("Gauge"),
                fields: vec![field("level", "u8"), field("active", "bool")],
            }),
            Declaration::Methods(MethodBlock {
                owner: bytes("Counter"),
                methods: vec![Method {
                    name: bytes("add_to"),
                    public: true,
                    has_receiver: true,
                    params: vec![param("by", "i64")],
                    ret: Some(bytes("i64")),
                }],
            }),
            Declaration::Function(FunctionDecl {
                name: bytes("nothing"),
                params: vec![],
                ret: None,
            }),
            Declaration::Function(FunctionDecl {
                name: bytes("neg"),
                params: vec![param("x", "i64")],
                ret: Some(bytes("i64")),
            }),
            Declaration::Function(FunctionDecl {
                name: bytes("add"),
                params: vec![param("a", "i32"), param("b", "i32")],
                ret: Some(bytes("i32")),
            }),
            Declaration::Function(FunctionDecl {
                name: bytes("five"),
                params: vec![
                    param("a", "i64"),
                    param("b", "i64"),
                    param("c", "i64"),
                    param("d", "i64"),
                    param("e", "i64"),
                ],
                ret: Some(bytes("i64")),
            }),
        ],
    }
}

fn generated() -> GenOutput {
    generate_unit(demo_unit()).unwrap_or_else(|_| panic!("generation must succeed"))
}

fn entry<'a>(out: &'a GenOutput, name: &str) -> &'a RegistrationEntry {
    out.table
        .iter()
        .find(|e| e.external_name == bytes(name))
        .unwrap_or_else(|| panic!("no entry named {}", name))
}

fn num(n: i64) -> SlotValue {
    SlotValue::Number(n)
}

fn text(s: &str) -> SlotValue {
    SlotValue::Text(bytes(s))
}

fn construct(out: &GenOutput, store: &mut ObjectStore, ctor: &str) -> Handle {
    let e = entry(out, ctor);
    match invoke(&out.layouts, &e.action, &vec![], store) {
        Ok(Outcome::Done(Some(SlotValue::Pointer(Some(h))))) => h,
        _ => panic!("construction through {} failed", ctor),
    }
}

/// Arity law on free functions: any argument count other than the
/// declared one is rejected, for every declared arity in zero, one, two,
/// and five.
#[test]
fn free_function_arity_is_exact() {
    let out = generated();
    let mut store = ObjectStore::new_store();
    let cases: [(&str, usize); 4] =
        [("mylib_nothing", 0), ("mylib_neg", 1), ("mylib_add", 2), ("mylib_five", 5)];
    for (name, n) in cases {
        let e = entry(&out, name);
        for wrong in 0..7usize {
            if wrong == n {
                continue;
            }
            let args: Vec<SlotValue> = (0..wrong).map(|i| num(i as i64)).collect();
            match invoke(&out.layouts, &e.action, &args, &mut store) {
                Err(RuntimeError::ArityMismatch { expected, actual }) => {
                    assert_eq!(expected, n);
                    assert_eq!(actual, wrong);
                },
                _ => panic!("{} must reject {} arguments", name, wrong),
            }
        }
        let args: Vec<SlotValue> = (0..n).map(|i| num(i as i64)).collect();
        match invoke(&out.layouts, &e.action, &args, &mut store) {
            Ok(Outcome::NeedsBody(pc)) => {
                assert_eq!(pc.args.len(), n);
                assert_eq!(pc.name, bytes(name.trim_start_matches("mylib_")));
                assert!(pc.receiver.is_none());
            },
            _ => panic!("{} must accept exactly {} arguments", name, n),
        }
    }
}

/// Arity law on methods: the receiver counts, so a call carrying only the
/// declared parameters is rejected.
#[test]
fn method_arity_counts_the_receiver() {
    let out = generated();
    let mut store = ObjectStore::new_store();
    let e = entry(&out, "mylib_counter_add_to");
    match invoke(&out.layouts, &e.action, &vec![num(5)], &mut store) {
        Err(RuntimeError::ArityMismatch { expected, actual }) => {
            assert_eq!(expected, 2);
            assert_eq!(actual, 1);
        },
        _ => panic!("a method call without the receiver must be rejected"),
    }
    let h = construct(&out, &mut store, "mylib_counter_new");
    match invoke(
        &out.layouts,
        &e.action,
        &vec![SlotValue::Pointer(Some(h)), num(5)],
        &mut store,
    ) {
        Ok(Outcome::NeedsBody(pc)) => {
            assert_eq!(pc.owner, Some(bytes("Counter")));
            assert_eq!(pc.name, bytes("add_to"));
            assert_eq!(pc.receiver, Some(h.index));
            assert_eq!(pc.args, vec![FieldValue::Num(5)]);
        },
        _ => panic!("a correctly shaped method call must pass its checks"),
    }
}

/// The round trip: construct, read the default, write, read again — the
/// getter observes the updated value.
#[test]
fn accessor_round_trip() {
    let out = generated();
    let mut store = ObjectStore::new_store();
    let h = construct(&out, &mut store, "mylib_counter_new");
    let get = entry(&out, "mylib_counter_get_value");
    let set = entry(&out, "mylib_counter_set_value");
    let recv = vec![SlotValue::Pointer(Some(h))];
    match invoke(&out.layouts, &get.action, &recv, &mut store) {
        Ok(Outcome::Done(Some(SlotValue::Number(n)))) => assert_eq!(n, 0),
        _ => panic!("the default value must read back as zero"),
    }
    match invoke(
        &out.layouts,
        &set.action,
        &vec![SlotValue::Pointer(Some(h)), num(42)],
        &mut store,
    ) {
        Ok(Outcome::Done(None)) => {},
        _ => panic!("the setter must succeed and set no return slot"),
    }
    match invoke(&out.layouts, &get.action, &recv, &mut store) {
        Ok(Outcome::Done(Some(SlotValue::Number(n)))) => assert_eq!(n, 42),
        _ => panic!("the getter must observe the updated value"),
    }
    // The text field round-trips too, as an owned copy.
    let gname = entry(&out, "mylib_counter_get_name");
    let sname = entry(&out, "mylib_counter_set_name");
    match invoke(
        &out.layouts,
        &sname.action,
        &vec![SlotValue::Pointer(Some(h)), text("bob")],
        &mut store,
    ) {
        Ok(Outcome::Done(None)) => {},
        _ => panic!("the text setter must succeed"),
    }
    match invoke(&out.layouts, &gname.action, &recv, &mut store) {
        Ok(Outcome::Done(Some(SlotValue::Text(t)))) => assert_eq!(t, bytes("bob")),
        _ => panic!("the text getter must observe the stored text"),
    }
}

/// The precision boundary through the accessors: a 64-bit field holding
/// 2^60 (a power of two) reads back exactly; 2^53 + 1 falls to the
/// nearest representable double, 2^53.
#[test]
fn wide_values_document_the_precision_boundary() {
    let out = generated();
    let mut store = ObjectStore::new_store();
    let h = construct(&out, &mut store, "mylib_counter_new");
    let get = entry(&out, "mylib_counter_get_value");
    let set = entry(&out, "mylib_counter_set_value");
    let recv = vec![SlotValue::Pointer(Some(h))];
    invoke(
        &out.layouts,
        &set.action,
        &vec![SlotValue::Pointer(Some(h)), num(1i64 << 60)],
        &mut store,
    )
    .unwrap();
    match invoke(&out.layouts, &get.action, &recv, &mut store) {
        Ok(Outcome::Done(Some(SlotValue::Number(n)))) => assert_eq!(n, 1i64 << 60),
        _ => panic!("a power of two is exactly representable"),
    }
    invoke(
        &out.layouts,
        &set.action,
        &vec![SlotValue::Pointer(Some(h)), num((1i64 << 53) + 1)],
        &mut store,
    )
    .unwrap();
    match invoke(&out.layouts, &get.action, &recv, &mut store) {
        Ok(Outcome::Done(Some(SlotValue::Number(n)))) => assert_eq!(n, 1i64 << 53),
        _ => panic!("2^53 + 1 is lossy through the double path"),
    }
}

/// A handle tagged for one structure is rejected by a trampoline
/// expecting the other structure's tag, with an invalid-pointer error.
#[test]
fn foreign_handles_are_rejected() {
    let out = generated();
    let mut store = ObjectStore::new_store();
    let counter = construct(&out, &mut store, "mylib_counter_new");
    let gauge = construct(&out, &mut store, "mylib_gauge_new");
    let counter_get = entry(&out, "mylib_counter_get_value");
    let gauge_get = entry(&out, "mylib_gauge_get_level");
    match invoke(
        &out.layouts,
        &gauge_get.action,
        &vec![SlotValue::Pointer(Some(counter))],
        &mut store,
    ) {
        Err(RuntimeError::InvalidPointer { position }) => assert_eq!(position, 1),
        _ => panic!("a counter handle must not pass a gauge trampoline"),
    }
    match invoke(
        &out.layouts,
        &counter_get.action,
        &vec![SlotValue::Pointer(Some(gauge))],
        &mut store,
    ) {
        Err(RuntimeError::InvalidPointer { position }) => assert_eq!(position, 1),
        _ => panic!("a gauge handle must not pass a counter trampoline"),
    }
    // Both instances are still intact afterwards.
    match invoke(
        &out.layouts,
        &counter_get.action,
        &vec![SlotValue::Pointer(Some(counter))],
        &mut store,
    ) {
        Ok(Outcome::Done(Some(SlotValue::Number(0)))) => {},
        _ => panic!("the rejected call must have no side effects"),
    }
}

/// A null handle is rejected by accessors but tolerated by the
/// destructor.
#[test]
fn null_handles() {
    let out = generated();
    let mut store = ObjectStore::new_store();
    let get = entry(&out, "mylib_counter_get_value");
    match invoke(&out.layouts, &get.action, &vec![SlotValue::Pointer(None)], &mut store) {
        Err(RuntimeError::InvalidPointer { position: 1 }) => {},
        _ => panic!("a null handle must be rejected, not dereferenced"),
    }
    let del = entry(&out, "mylib_counter_delete");
    match invoke(&out.layouts, &del.action, &vec![SlotValue::Pointer(None)], &mut store) {
        Ok(Outcome::Done(None)) => {},
        _ => panic!("the destructor tolerates a null handle"),
    }
}

/// Deleting a handle makes it stale: a later use is rejected instead of
/// touching freed storage, and a second delete is rejected too.
#[test]
fn stale_handles_are_rejected() {
    let out = generated();
    let mut store = ObjectStore::new_store();
    let h = construct(&out, &mut store, "mylib_counter_new");
    let del = entry(&out, "mylib_counter_delete");
    let get = entry(&out, "mylib_counter_get_value");
    match invoke(&out.layouts, &del.action, &vec![SlotValue::Pointer(Some(h))], &mut store) {
        Ok(Outcome::Done(None)) => {},
        _ => panic!("the first delete must succeed"),
    }
    match invoke(&out.layouts, &get.action, &vec![SlotValue::Pointer(Some(h))], &mut store) {
        Err(RuntimeError::InvalidPointer { position: 1 }) => {},
        _ => panic!("use after free must be rejected"),
    }
    match invoke(&out.layouts, &del.action, &vec![SlotValue::Pointer(Some(h))], &mut store) {
        Err(RuntimeError::InvalidPointer { position: 1 }) => {},
        _ => panic!("a double delete must be rejected"),
    }
}

/// Type checks run left to right and the first failing position is
/// reported; nothing after it is inspected and nothing is extracted.
#[test]
fn wrong_argument_kinds_are_reported_in_order() {
    let out = generated();
    let mut store = ObjectStore::new_store();
    let add = entry(&out, "mylib_add");
    match invoke(&out.layouts, &add.action, &vec![text("x"), text("y")], &mut store) {
        Err(RuntimeError::WrongArgumentKind { position, wanted }) => {
            assert_eq!(position, 1);
            assert_eq!(wanted, SlotKind::NumberSlot);
        },
        _ => panic!("a text slot must fail the numeric check"),
    }
    match invoke(&out.layouts, &add.action, &vec![num(1), text("y")], &mut store) {
        Err(RuntimeError::WrongArgumentKind { position, wanted }) => {
            assert_eq!(position, 2);
            assert_eq!(wanted, SlotKind::NumberSlot);
        },
        _ => panic!("the second slot's check must be reported at position 2"),
    }
    let get = entry(&out, "mylib_counter_get_value");
    match invoke(&out.layouts, &get.action, &vec![num(7)], &mut store) {
        Err(RuntimeError::WrongArgumentKind { position, wanted }) => {
            assert_eq!(position, 1);
            assert_eq!(wanted, SlotKind::PointerSlot);
        },
        _ => panic!("a numeric slot must fail the pointer check"),
    }
}

/// Extraction narrows numbers to the declared width before the body runs.
#[test]
fn extraction_narrows_to_declared_widths() {
    let out = generated();
    let mut store = ObjectStore::new_store();
    let add = entry(&out, "mylib_add");
    match invoke(&out.layouts, &add.action, &vec![num(5_000_000_000), num(-1)], &mut store) {
        Ok(Outcome::NeedsBody(pc)) => {
            assert_eq!(pc.args, vec![FieldValue::Num(2147483647), FieldValue::Num(-1)]);
        },
        _ => panic!("checked numeric arguments must extract"),
    }
    // A boolean field reads any nonzero number as true.
    let h = construct(&out, &mut store, "mylib_gauge_new");
    let set = entry(&out, "mylib_gauge_set_active");
    let get = entry(&out, "mylib_gauge_get_active");
    invoke(
        &out.layouts,
        &set.action,
        &vec![SlotValue::Pointer(Some(h)), num(7)],
        &mut store,
    )
    .unwrap();
    match invoke(&out.layouts, &get.action, &vec![SlotValue::Pointer(Some(h))], &mut store) {
        Ok(Outcome::Done(Some(SlotValue::Number(1)))) => {},
        _ => panic!("a true boolean reads back as one"),
    }
}

/// The custom-constructor flow: checks and extraction, the host runs the
/// native constructor, and the produced instance is boxed and
/// tag-returned.
#[test]
fn custom_construction_flow() {
    let unit = BindingUnit {
        prefix: Some(bytes("mylib")),
        declarations: vec![
            Declaration::Structure(Structure {
                name: bytes("Counter"),
                fields: vec![field("value", "i64"), field("name", "String")],
            }),
            Declaration::Methods(MethodBlock {
                owner: bytes("Counter"),
                methods: vec![Method {
                    name: bytes("new"),
                    public: true,
                    has_receiver: false,
                    params: vec![param("name", "& str"), param("initial", "i64")],
                    ret: Some(bytes("Self")),
                }],
            }),
        ],
    };
    let out = generate_unit(unit).unwrap_or_else(|_| panic!("generation must succeed"));
    let mut store = ObjectStore::new_store();
    let ctor = entry(&out, "mylib_counter_new");
    let pc = match invoke(
        &out.layouts,
        &ctor.action,
        &vec![text("bob"), num(7)],
        &mut store,
    ) {
        Ok(Outcome::NeedsConstruct(pc)) => pc,
        _ => panic!("the custom constructor needs its native body"),
    };
    assert_eq!(pc.args, vec![FieldValue::Text(bytes("bob")), FieldValue::Num(7)]);
    // The native constructor body would now build the instance's fields.
    let fields = vec![FieldValue::Num(7), FieldValue::Text(bytes("bob"))];
    let slot = finish_construct(&out.layouts, &pc.tag, fields, &mut store)
        .unwrap_or_else(|| panic!("conforming fields must box"));
    let h = match slot {
        SlotValue::Pointer(Some(h)) => h,
        _ => panic!("construction returns a tagged handle"),
    };
    let get = entry(&out, "mylib_counter_get_value");
    match invoke(&out.layouts, &get.action, &vec![SlotValue::Pointer(Some(h))], &mut store) {
        Ok(Outcome::Done(Some(SlotValue::Number(7)))) => {},
        _ => panic!("the constructed instance must carry its initial value"),
    }
    // Ill-shaped field values are refused rather than boxed.
    let bad = vec![FieldValue::Text(bytes("bob")), FieldValue::Num(7)];
    assert!(finish_construct(&out.layouts, &pc.tag, bad, &mut store).is_none());
}

/// The instance-method flow end to end: the trampoline checks and
/// extracts, the host runs the body against the receiver through the
/// store, and the result crosses the return slot.
#[test]
fn method_body_execution_flow() {
    let out = generated();
    let mut store = ObjectStore::new_store();
    let h = construct(&out, &mut store, "mylib_counter_new");
    let set = entry(&out, "mylib_counter_set_value");
    invoke(
        &out.layouts,
        &set.action,
        &vec![SlotValue::Pointer(Some(h)), num(40)],
        &mut store,
    )
    .unwrap();
    let m = entry(&out, "mylib_counter_add_to");
    let pc = match invoke(
        &out.layouts,
        &m.action,
        &vec![SlotValue::Pointer(Some(h)), num(2)],
        &mut store,
    ) {
        Ok(Outcome::NeedsBody(pc)) => pc,
        _ => panic!("the method call must pass its checks"),
    };
    // The native body of `add_to`: add the argument to the receiver's
    // first field and return the sum.
    let recv = pc.receiver.unwrap();
    let by = match pc.args[0] {
        FieldValue::Num(n) => n,
        _ => panic!("the argument extracts as a number"),
    };
    let current = match store.read_field(recv, 0) {
        FieldValue::Num(n) => *n,
        _ => panic!("the field holds a number"),
    };
    store.put_field(recv, 0, FieldValue::Num(current + by));
    let ret = return_slot(&FieldValue::Num(current + by));
    assert_eq!(ret, SlotValue::Number(42));
    // The mutation is visible through the getter trampoline.
    let get = entry(&out, "mylib_counter_get_value");
    match invoke(&out.layouts, &get.action, &vec![SlotValue::Pointer(Some(h))], &mut store) {
        Ok(Outcome::Done(Some(SlotValue::Number(42)))) => {},
        _ => panic!("the getter must observe the method's write"),
    }
}

/// Return conversion: numbers round through the double slot, booleans
/// become one or zero, text is copied.
#[test]
fn return_conversion() {
    assert_eq!(return_slot(&FieldValue::Num(42)), SlotValue::Number(42));
    assert_eq!(return_slot(&FieldValue::Num((1i64 << 53) + 1)), SlotValue::Number(1i64 << 53));
    assert_eq!(return_slot(&FieldValue::Truth(true)), SlotValue::Number(1));
    assert_eq!(return_slot(&FieldValue::Truth(false)), SlotValue::Number(0));
    assert_eq!(return_slot(&FieldValue::Text(bytes("ok"))), SlotValue::Text(bytes("ok")));
}
