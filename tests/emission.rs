use lilit::decl::{ClassDecl, ClassTable, Field};
use lilit::emit::helper::Emitter;
use lilit::emit::value::{FnSig, Instr, Layout, Operand, Ty, Value};
use lilit::tree::InternalError;

fn class(name: &str, fields: Vec<(&str, usize)>) -> ClassDecl {
    ClassDecl {
        name: name.to_string(),
        fields: fields
            .into_iter()
            .map(|(n, c)| Field { name: n.to_string(), class: c })
            .collect(),
        methods: vec![],
    }
}

const NATIVE_INT: usize = 0;
const NATIVE_CHAR: usize = 1;
const NATIVE_STRING: usize = 2;
const NATIVE_VOID: usize = 3;
const INNER: usize = 4;
const OUTER: usize = 5;
const POINT: usize = 6;
const HOLDS_VOID: usize = 7;

fn emitter() -> Emitter {
    let table = ClassTable::from_classes(vec![
        class("Native__Int", vec![("value", NATIVE_INT)]),
        class("Native__Char", vec![("value", NATIVE_CHAR)]),
        class("Native__String", vec![("value", NATIVE_STRING)]),
        class("Native__Void", vec![]),
        class("Native__Struct__Inner", vec![("a", NATIVE_INT)]),
        class(
            "Native__Struct__Outer",
            vec![("p", NATIVE_INT), ("q", INNER), ("r", NATIVE_CHAR)],
        ),
        class("Point", vec![("x", NATIVE_INT)]),
        class("Native__Struct__HoldsVoid", vec![("v", NATIVE_VOID)]),
    ])
    .unwrap();
    let mut e = Emitter::new(table);
    // registers 0..4 hold values loaded before any boxing
    for slot in 0..4 {
        e.read_ptr(slot, POINT);
    }
    e
}

/// The value stored into field `index` of the object at `obj`.
fn stored(e: &Emitter, obj: usize, index: usize) -> Option<Operand> {
    let mut found = None;
    for (s, i) in e.instrs.iter().enumerate() {
        if let Instr::Store { ptr, value } = i {
            if let Instr::FieldPtr { base, index: k } = &e.instrs[*ptr] {
                if *base == obj && *k == index && *ptr < s {
                    assert!(found.is_none(), "field stored twice");
                    found = Some(*value);
                }
            }
        }
    }
    found
}

fn is_fresh_box(e: &Emitter, r: usize, class: usize) -> bool {
    r >= 3
        && matches!(e.instrs[r - 3], Instr::SizeOf(Layout::Class(c)) if c == class)
        && matches!(&e.instrs[r], Instr::Cast { src, layout: Layout::Class(c) } if *src == r - 2 && *c == class)
}

#[test]
fn native_int_round_trip() {
    let mut e = emitter();
    let x = e.read_ptr(1, POINT);
    let raw = match x {
        Value::Class(r, _) => r,
        _ => unreachable!(),
    };
    let v = e.to_value(raw, NATIVE_INT).unwrap();
    assert_eq!(v, Value::Int(raw));
    let before = e.instrs.len();
    let w = e.wrap_with_class(v, NATIVE_INT).unwrap();
    assert_ne!(w, raw);
    assert!(is_fresh_box(&e, w, NATIVE_INT));
    assert_eq!(stored(&e, w, 0), Some(Operand::Reg(raw)));
    // one allocation (four instructions), the field address and the store
    assert_eq!(e.instrs.len(), before + 6);
}

#[test]
fn char_and_string_are_boxed_in_their_wrappers() {
    let mut e = emitter();
    let w = e.wrap_with_class(Value::Char(0), NATIVE_CHAR).unwrap();
    assert!(is_fresh_box(&e, w, NATIVE_CHAR));
    assert_eq!(stored(&e, w, 0), Some(Operand::Reg(0)));
    let w = e.wrap_with_class(Value::String(1), NATIVE_STRING).unwrap();
    assert!(is_fresh_box(&e, w, NATIVE_STRING));
    assert_eq!(stored(&e, w, 0), Some(Operand::Reg(1)));
}

#[test]
fn nested_struct_is_boxed_field_by_field() {
    let mut e = emitter();
    let w = e.wrap_with_class(Value::Struct(3, OUTER), OUTER).unwrap();
    assert!(is_fresh_box(&e, w, OUTER));
    let expected = [NATIVE_INT, INNER, NATIVE_CHAR];
    for (i, fc) in expected.iter().enumerate() {
        let inner = match stored(&e, w, i) {
            Some(Operand::Reg(r)) => r,
            other => panic!("field {} holds {:?}", i, other),
        };
        assert!(is_fresh_box(&e, inner, *fc), "field {}", i);
    }
    assert_eq!(stored(&e, w, 3), None);
    // the nested struct's own field is boxed too
    let q = match stored(&e, w, 1) {
        Some(Operand::Reg(r)) => r,
        _ => unreachable!(),
    };
    match stored(&e, q, 0) {
        Some(Operand::Reg(r)) => assert!(is_fresh_box(&e, r, NATIVE_INT)),
        other => panic!("inner field holds {:?}", other),
    }
}

#[test]
fn boxed_instance_is_returned_unchanged() {
    let mut e = emitter();
    let before = e.instrs.len();
    assert_eq!(e.wrap_with_class(Value::Class(42, POINT), POINT), Ok(42));
    assert_eq!(e.instrs.len(), before);
}

#[test]
fn struct_fields_come_from_the_source_in_order() {
    let mut e = emitter();
    let before = e.instrs.len();
    let w = e.wrap_with_class(Value::Struct(2, OUTER), OUTER).unwrap();
    // field i is loaded from field i of the source, in order
    let mut loaded = vec![];
    for (k, i) in e.instrs.iter().enumerate().skip(before) {
        if let Instr::Load { ptr } = i {
            if let Instr::FieldPtr { base, index } = &e.instrs[*ptr] {
                loaded.push((k, *base, *index));
            }
        }
    }
    let from_source: Vec<usize> = loaded.iter().filter(|l| l.1 == 2).map(|l| l.2).collect();
    assert_eq!(from_source, vec![0, 1, 2]);
    // the source is never written, and the result is a new object
    for i in &e.instrs {
        if let Instr::Store { ptr, .. } = i {
            assert!(!matches!(e.instrs[*ptr], Instr::FieldPtr { base: 2, .. }));
        }
    }
    assert_ne!(w, 2);
    // one allocation for the outer object, one for each of its three fields,
    // one for the field of the nested struct
    let mallocs = e.instrs[before..]
        .iter()
        .filter(|i| matches!(i, Instr::Call { func, .. } if e.externals[*func].name == "GC_malloc"))
        .count();
    assert_eq!(mallocs, 5);
}

#[test]
fn refused_values_emit_nothing() {
    let mut e = emitter();
    let before = e.instrs.len();
    assert_eq!(
        e.wrap_with_class(Value::Struct(1, INNER), OUTER),
        Err(InternalError::ClassMismatch)
    );
    assert_eq!(e.wrap_with_class(Value::Int(1), NATIVE_CHAR), Err(InternalError::ClassMismatch));
    assert_eq!(e.wrap_with_class(Value::Void, POINT), Err(InternalError::WrapVoid));
    assert_eq!(e.instrs.len(), before);
    assert_eq!(e.externals.len(), 0);
}

#[test]
fn wrap_errors() {
    let mut e = emitter();
    assert_eq!(
        e.wrap_with_class(Value::Class(1, POINT), NATIVE_INT),
        Err(InternalError::ClassMismatch)
    );
    assert_eq!(
        e.wrap_with_class(Value::Int(1), NATIVE_CHAR),
        Err(InternalError::ClassMismatch)
    );
    assert_eq!(
        e.wrap_with_class(Value::Struct(1, INNER), OUTER),
        Err(InternalError::ClassMismatch)
    );
    assert_eq!(e.wrap_with_class(Value::Void, POINT), Err(InternalError::WrapVoid));
    assert_eq!(
        e.wrap_with_class(Value::Struct(1, HOLDS_VOID), HOLDS_VOID),
        Err(InternalError::WrapVoid)
    );
}

#[test]
fn to_value_by_class_name() {
    let e = emitter();
    assert_eq!(e.to_value(5, NATIVE_INT), Ok(Value::Int(5)));
    assert_eq!(e.to_value(5, NATIVE_CHAR), Ok(Value::Char(5)));
    assert_eq!(e.to_value(5, NATIVE_STRING), Ok(Value::String(5)));
    assert_eq!(e.to_value(5, NATIVE_VOID), Ok(Value::Void));
    assert_eq!(e.to_value(5, INNER), Ok(Value::Struct(5, INNER)));
    assert_eq!(e.to_value(5, POINT), Err(InternalError::Unsupported));
}

#[test]
fn native_storage_kinds() {
    let e = emitter();
    assert_eq!(e.get_type_for_native(NATIVE_INT), Ok(Ty::I64));
    assert_eq!(e.get_type_for_native(NATIVE_CHAR), Ok(Ty::I8));
    assert_eq!(e.get_type_for_native(NATIVE_STRING), Ok(Ty::Ptr));
    assert_eq!(e.get_type_for_native(POINT), Err(InternalError::Unsupported));
    assert_eq!(e.get_type_for_native(NATIVE_VOID), Err(InternalError::Unsupported));
}

#[test]
fn declaring_twice_gives_the_same_handle() {
    let mut e = emitter();
    let sig = || FnSig { params: vec![Ty::I64], ret: Ty::Ptr, noalias_ret: true };
    let a = e.get_external_func("GC_malloc".to_string(), sig());
    let n = e.externals.len();
    let b = e.get_external_func("GC_malloc".to_string(), sig());
    assert_eq!(a, b);
    assert_eq!(e.externals.len(), n);
    let c = e.get_external_func("GC_gcollect".to_string(), FnSig { params: vec![], ret: Ty::Void, noalias_ret: false });
    assert_ne!(a, c);
    assert_eq!(e.externals.len(), n + 1);
}

#[test]
fn every_allocation_registers_a_finalizer() {
    let mut e = emitter();
    let a = e.malloc(POINT);
    let b = e.malloc_array(Ty::I8, 16);
    assert!(matches!(e.instrs[b - 3], Instr::SizeOf(Layout::Array(Ty::I8, 16))));
    for r in [a, b] {
        match &e.instrs[r - 2] {
            Instr::Call { func, args } => {
                assert_eq!(e.externals[*func].name, "GC_malloc");
                assert_eq!(args, &vec![Operand::Reg(r - 3)]);
            }
            _ => panic!("no allocation call"),
        }
        match &e.instrs[r - 1] {
            Instr::Call { func, args } => {
                assert_eq!(e.externals[*func].name, "GC_register_finalizer");
                assert_eq!(args[0], Operand::Reg(r - 2));
                match args[1] {
                    Operand::Func(f) => assert_eq!(e.externals[f].name, "GC_finalizer"),
                    _ => panic!("no finalizer"),
                }
            }
            _ => panic!("no finalizer registration"),
        }
    }
    // three routines, each declared once
    assert_eq!(e.externals.len(), 3);
}

#[test]
fn collector_entry_points() {
    let mut e = emitter();
    e.gc_init();
    e.gc_collect();
    e.gc_collect();
    let names: Vec<&str> = e
        .instrs
        .iter()
        .map(|i| match i {
            Instr::Call { func, .. } => e.externals[*func].name.as_str(),
            _ => "",
        })
        .collect();
    assert_eq!(names, vec!["", "", "", "", "GC_init", "GC_gcollect", "GC_gcollect"]);
    assert_eq!(e.externals.len(), 2);
}
