use ring_codegen::generate::{generate_unit, generate_unit_strict, GenError, GenOutput};
use ring_codegen::model::{
    BindingUnit, Declaration, Field, FunctionDecl, Method, MethodBlock, Param, Structure,
};
use ring_codegen::naming::terminated;
use ring_codegen::table::Action;

fn bytes(s: &str) -> Vec<u8> {
    s.as_bytes().to_vec()
}

fn param(name: &str, ty: &str) -> Param {
    Param { name: bytes(name), ty: bytes(ty) }
}

fn field(name: &str, ty: &str, public: bool) -> Field {
    Field { name: bytes(name), public, ty: bytes(ty) }
}

fn counter_struct() -> Structure {
    Structure {
        name: bytes("Counter"),
        fields: vec![field("value", "i64", true), field("name", "String", true)],
    }
}

fn names(out: &GenOutput) -> Vec<Vec<u8>> {
    out.table.iter().map(|e| e.external_name.clone()).collect()
}

fn must_generate(unit: BindingUnit) -> GenOutput {
    match generate_unit(unit) {
        Ok(out) => out,
        Err(GenError::DuplicateName { name }) => {
            panic!("unexpected duplicate name {:?}", String::from_utf8_lossy(&name))
        },
        Err(GenError::UnresolvableType { ty }) => {
            panic!("unexpected unresolvable type {:?}", String::from_utf8_lossy(&ty))
        },
    }
}

/// A prefixed free function lands in the table under exactly
/// `<prefix>_<function>`, and its emitted form is null-terminated.
#[test]
fn prefixed_function_name() {
    let unit = BindingUnit {
        prefix: Some(bytes("mylib")),
        declarations: vec![Declaration::Function(FunctionDecl {
            name: bytes("add"),
            params: vec![param("a", "i32"), param("b", "i32")],
            ret: Some(bytes("i32")),
        })],
    };
    let out = must_generate(unit);
    assert_eq!(names(&out), vec![bytes("mylib_add")]);
    assert_eq!(terminated(&out.table[0].external_name), b"mylib_add\0".to_vec());
    match &out.table[0].action {
        Action::FreeCall { params, ret, target } => {
            assert_eq!(params.len(), 2);
            assert!(ret.is_some());
            assert_eq!(target, &bytes("add"));
        },
        _ => panic!("expected a free-function trampoline"),
    }
}

/// Without a prefix (or with an empty one) no separator is prepended.
#[test]
fn empty_prefix_adds_no_separator() {
    for prefix in [None, Some(bytes(""))] {
        let unit = BindingUnit {
            prefix,
            declarations: vec![Declaration::Function(FunctionDecl {
                name: bytes("greet"),
                params: vec![param("name", "& str")],
                ret: Some(bytes("String")),
            })],
        };
        let out = must_generate(unit);
        assert_eq!(names(&out), vec![bytes("greet")]);
    }
}

/// A structure without a user `new` gets exactly one constructor
/// trampoline (the zero-argument default one), one destructor, and a
/// getter and setter per public field, in generation order.
#[test]
fn default_constructor_and_accessors() {
    let unit = BindingUnit {
        prefix: Some(bytes("mylib")),
        declarations: vec![Declaration::Structure(counter_struct())],
    };
    let out = must_generate(unit);
    assert_eq!(
        names(&out),
        vec![
            bytes("mylib_counter_delete"),
            bytes("mylib_counter_new"),
            bytes("mylib_counter_get_value"),
            bytes("mylib_counter_set_value"),
            bytes("mylib_counter_get_name"),
            bytes("mylib_counter_set_name"),
        ]
    );
    let ctors: Vec<_> = out
        .table
        .iter()
        .filter(|e| matches!(e.action, Action::DefaultNew { .. } | Action::CustomNew { .. }))
        .collect();
    assert_eq!(ctors.len(), 1);
    match &ctors[0].action {
        Action::DefaultNew { field_cats, .. } => assert_eq!(field_cats.len(), 2),
        _ => panic!("expected the default constructor"),
    }
    let deletes: Vec<_> =
        out.table.iter().filter(|e| matches!(e.action, Action::Delete { .. })).collect();
    assert_eq!(deletes.len(), 1);
}

/// A user `new` suppresses the default constructor; the custom one takes
/// exactly the declared two arguments.
#[test]
fn custom_constructor_replaces_default() {
    let unit = BindingUnit {
        prefix: Some(bytes("mylib")),
        declarations: vec![
            Declaration::Structure(counter_struct()),
            Declaration::Methods(MethodBlock {
                owner: bytes("Counter"),
                methods: vec![Method {
                    name: bytes("new"),
                    public: true,
                    has_receiver: false,
                    params: vec![param("name", "& str"), param("initial", "i64")],
                    ret: Some(bytes("Self")),
                }],
            }),
        ],
    };
    let out = must_generate(unit);
    assert!(!out.table.iter().any(|e| matches!(e.action, Action::DefaultNew { .. })));
    let ctors: Vec<_> = out
        .table
        .iter()
        .filter(|e| matches!(e.action, Action::CustomNew { .. }))
        .collect();
    assert_eq!(ctors.len(), 1);
    assert_eq!(ctors[0].external_name, bytes("mylib_counter_new"));
    match &ctors[0].action {
        Action::CustomNew { params, .. } => assert_eq!(params.len(), 2),
        _ => unreachable!(),
    }
}

/// A method named `get_value` suppresses the auto-generated getter of the
/// field `value`; the setter is still generated.  The external name is
/// resolved by the method trampoline instead.
#[test]
fn user_method_shadows_getter_but_not_setter() {
    let unit = BindingUnit {
        prefix: None,
        declarations: vec![
            Declaration::Structure(counter_struct()),
            Declaration::Methods(MethodBlock {
                owner: bytes("Counter"),
                methods: vec![Method {
                    name: bytes("get_value"),
                    public: true,
                    has_receiver: true,
                    params: vec![],
                    ret: Some(bytes("i64")),
                }],
            }),
        ],
    };
    let out = must_generate(unit);
    let getters: Vec<_> = out
        .table
        .iter()
        .filter(|e| e.external_name == bytes("counter_get_value"))
        .collect();
    assert_eq!(getters.len(), 1);
    assert!(matches!(getters[0].action, Action::MethodCall { .. }));
    let setters: Vec<_> = out
        .table
        .iter()
        .filter(|e| e.external_name == bytes("counter_set_value"))
        .collect();
    assert_eq!(setters.len(), 1);
    assert!(matches!(setters[0].action, Action::SetField { .. }));
}

/// A method bearing the bare field name also suppresses the getter.
#[test]
fn bare_field_name_method_shadows_getter() {
    let unit = BindingUnit {
        prefix: None,
        declarations: vec![
            Declaration::Structure(counter_struct()),
            Declaration::Methods(MethodBlock {
                owner: bytes("Counter"),
                methods: vec![Method {
                    name: bytes("value"),
                    public: true,
                    has_receiver: true,
                    params: vec![],
                    ret: Some(bytes("i64")),
                }],
            }),
        ],
    };
    let out = must_generate(unit);
    assert!(!out.table.iter().any(|e| e.external_name == bytes("counter_get_value")));
    assert!(out.table.iter().any(|e| e.external_name == bytes("counter_set_value")));
}

/// Private fields get no accessors, but still occupy field slots in the
/// structure's layout.
#[test]
fn private_fields_get_no_accessors() {
    let unit = BindingUnit {
        prefix: None,
        declarations: vec![Declaration::Structure(Structure {
            name: bytes("Pair"),
            fields: vec![field("a", "i64", true), field("secret", "i64", false)],
        })],
    };
    let out = must_generate(unit);
    assert_eq!(
        names(&out),
        vec![
            bytes("pair_delete"),
            bytes("pair_new"),
            bytes("pair_get_a"),
            bytes("pair_set_a"),
        ]
    );
    assert_eq!(out.layouts.len(), 1);
    assert_eq!(out.layouts[0].fields.len(), 2);
    assert_eq!(out.layouts[0].tag, b"Pair\0".to_vec());
}

/// Structure names are lowercased in external names; the tag keeps the
/// original spelling.
#[test]
fn naming_lowercases_structure_segment() {
    let unit = BindingUnit {
        prefix: Some(bytes("app")),
        declarations: vec![Declaration::Structure(Structure {
            name: bytes("MyThing"),
            fields: vec![],
        })],
    };
    let out = must_generate(unit);
    assert_eq!(names(&out), vec![bytes("app_mything_delete"), bytes("app_mything_new")]);
    assert_eq!(out.layouts[0].tag, b"MyThing\0".to_vec());
}

/// Two trampolines deriving the same external name fail generation with a
/// diagnostic naming the collision; no partial output is produced.
#[test]
fn duplicate_external_names_are_rejected() {
    let unit = BindingUnit {
        prefix: None,
        declarations: vec![
            Declaration::Function(FunctionDecl {
                name: bytes("twice"),
                params: vec![],
                ret: None,
            }),
            Declaration::Function(FunctionDecl {
                name: bytes("twice"),
                params: vec![param("x", "i64")],
                ret: None,
            }),
        ],
    };
    match generate_unit(unit) {
        Err(GenError::DuplicateName { name }) => assert_eq!(name, bytes("twice")),
        _ => panic!("a name collision must fail generation"),
    }
}

/// Strict classification refuses an unrecognized type expression with a
/// diagnostic naming it; the lenient mode marshals the same unit by the
/// numeric fallback.
#[test]
fn strict_mode_rejects_unrecognized_types() {
    let make = || BindingUnit {
        prefix: None,
        declarations: vec![Declaration::Function(FunctionDecl {
            name: bytes("take"),
            params: vec![param("what", "Widget")],
            ret: None,
        })],
    };
    match generate_unit_strict(make()) {
        Err(GenError::UnresolvableType { ty }) => assert_eq!(ty, bytes("Widget")),
        _ => panic!("strict classification must reject `Widget`"),
    }
    let out = must_generate(make());
    assert_eq!(names(&out), vec![bytes("take")]);
}

/// Strict generation accepts a unit whose every type expression is
/// recognized, with the same output as the lenient mode.
#[test]
fn strict_mode_accepts_recognized_types() {
    let unit = BindingUnit {
        prefix: Some(bytes("mylib")),
        declarations: vec![Declaration::Structure(counter_struct())],
    };
    let out = match generate_unit_strict(unit) {
        Ok(out) => out,
        _ => panic!("recognized types must generate strictly"),
    };
    assert_eq!(out.table.len(), 6);
}

/// Methods without a receiver (other than `new`) get no trampoline; the
/// declaration passes through ungenerated.
#[test]
fn receiverless_methods_are_skipped() {
    let unit = BindingUnit {
        prefix: None,
        declarations: vec![
            Declaration::Structure(counter_struct()),
            Declaration::Methods(MethodBlock {
                owner: bytes("Counter"),
                methods: vec![
                    Method {
                        name: bytes("helper"),
                        public: true,
                        has_receiver: false,
                        params: vec![],
                        ret: None,
                    },
                    Method {
                        name: bytes("increment"),
                        public: true,
                        has_receiver: true,
                        params: vec![],
                        ret: None,
                    },
                ],
            }),
        ],
    };
    let out = must_generate(unit);
    assert!(!out.table.iter().any(|e| e.external_name == bytes("counter_helper")));
    assert!(out.table.iter().any(|e| e.external_name == bytes("counter_increment")));
}

/// The original declarations are preserved unchanged in the output.
#[test]
fn source_declarations_pass_through() {
    let unit = BindingUnit {
        prefix: Some(bytes("mylib")),
        declarations: vec![Declaration::Structure(counter_struct())],
    };
    let out = must_generate(unit);
    assert_eq!(out.source.declarations.len(), 1);
    match &out.source.declarations[0] {
        Declaration::Structure(s) => assert_eq!(s.name, bytes("Counter")),
        _ => panic!("the structure declaration must reappear unchanged"),
    }
}

/// A non-public method gets no trampoline, but still shadows: a private
/// `get_value` removes the auto-generated getter without replacing it,
/// while the setter stays.
#[test]
fn private_method_shadows_but_is_not_exposed() {
    let unit = BindingUnit {
        prefix: None,
        declarations: vec![
            Declaration::Structure(counter_struct()),
            Declaration::Methods(MethodBlock {
                owner: bytes("Counter"),
                methods: vec![Method {
                    name: bytes("get_value"),
                    public: false,
                    has_receiver: true,
                    params: vec![],
                    ret: Some(bytes("i64")),
                }],
            }),
        ],
    };
    let out = must_generate(unit);
    assert!(!out.table.iter().any(|e| e.external_name == bytes("counter_get_value")));
    assert!(out.table.iter().any(|e| e.external_name == bytes("counter_set_value")));
}

/// A non-public `new` suppresses the default constructor without putting
/// a custom one in the table: such a structure has no constructor
/// trampoline at all, only its destructor and accessors.
#[test]
fn private_new_suppresses_default_without_replacement() {
    let unit = BindingUnit {
        prefix: None,
        declarations: vec![
            Declaration::Structure(counter_struct()),
            Declaration::Methods(MethodBlock {
                owner: bytes("Counter"),
                methods: vec![Method {
                    name: bytes("new"),
                    public: false,
                    has_receiver: false,
                    params: vec![],
                    ret: Some(bytes("Self")),
                }],
            }),
        ],
    };
    let out = must_generate(unit);
    assert!(!out
        .table
        .iter()
        .any(|e| matches!(e.action, Action::DefaultNew { .. } | Action::CustomNew { .. })));
    assert!(out.table.iter().any(|e| e.external_name == bytes("counter_delete")));
    assert!(out.table.iter().any(|e| e.external_name == bytes("counter_get_value")));
}

/// An empty unit generates an empty table.
#[test]
fn empty_unit() {
    let out = must_generate(BindingUnit { prefix: None, declarations: vec![] });
    assert!(out.table.is_empty());
    assert!(out.layouts.is_empty());
}
