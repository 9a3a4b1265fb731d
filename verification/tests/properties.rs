//! The property/slot/trait table: installation round trips, slots,
//! methods, computed accessors, enumeration, deletion, traits and scope
//! resolution.

use avm_core::arena::Arena;
use avm_core::class::Class;
use avm_core::class::Trait;
use avm_core::class::TraitKind;
use avm_core::error::Error;
use avm_core::function::ExecOutcome;
use avm_core::function::FunctionObject;
use avm_core::globals::UpdateContext;
use avm_core::method::BytecodeMethod;
use avm_core::method::Method;
use avm_core::method::NativeMethod;
use avm_core::names::Namespace;
use avm_core::names::QName;
use avm_core::scope::Scope;
use avm_core::value::NumberValue;
use avm_core::value::Value;
use avm_core::value::value_matches;

fn public(name: &[u8]) -> QName {
    QName::new(Namespace::public_namespace(), name.to_vec())
}

fn get_done(arena: &Arena, ctx: &mut UpdateContext, obj: usize, name: &QName) -> Value {
    match FunctionObject(obj).get_property_local(arena, ctx, name).unwrap() {
        ExecOutcome::Done(v) => v,
        other => panic!("expected a finished read, got {:?}", other),
    }
}

#[test]
fn install_then_get_round_trip() {
    let mut arena = Arena::new();
    let mut ctx = UpdateContext::new(6);
    let o = arena.bare_object();
    let name = public(b"score");
    let v = Value::Number(NumberValue::Finite(5));
    FunctionObject(o).install_dynamic_property(&mut arena, &name, v).unwrap();
    let got = get_done(&arena, &mut ctx, o, &name);
    assert!(value_matches(&got, &Value::Number(NumberValue::Finite(5))));

    // A subsequent general assignment replaces the value.
    let v2 = Value::String(b"five".to_vec());
    FunctionObject(o).set_property_local(&mut arena, &mut ctx, &name, v2).unwrap();
    let got = get_done(&arena, &mut ctx, o, &name);
    assert!(value_matches(&got, &Value::String(b"five".to_vec())));
}

#[test]
fn set_on_non_overwritable_property_fails_and_keeps_the_value() {
    let mut arena = Arena::new();
    let mut ctx = UpdateContext::new(6);
    let o = arena.bare_object();
    let name = public(b"PI_ISH");
    FunctionObject(o).install_const(&mut arena, &name, 0, Value::Number(NumberValue::Finite(3)));
    assert!(!FunctionObject(o).is_property_overwritable(&arena, &name));
    let r = FunctionObject(o).set_property_local(
        &mut arena,
        &mut ctx,
        &name,
        Value::Number(NumberValue::Finite(4)),
    );
    assert!(matches!(r, Err(Error::PropertyNotOverwritable)));
    let got = get_done(&arena, &mut ctx, o, &name);
    assert!(value_matches(&got, &Value::Number(NumberValue::Finite(3))));
    // The construction path still may write it.
    FunctionObject(o)
        .init_property_local(&mut arena, &mut ctx, &name, Value::Number(NumberValue::Finite(9)))
        .unwrap();
    let got = get_done(&arena, &mut ctx, o, &name);
    assert!(value_matches(&got, &Value::Number(NumberValue::Finite(9))));
}

#[test]
fn set_on_sealed_object_fails() {
    let mut arena = Arena::new();
    let mut ctx = UpdateContext::new(6);
    let o = arena.bare_object();
    arena.objects[o].base.extensible = false;
    let r = FunctionObject(o).set_property_local(
        &mut arena,
        &mut ctx,
        &public(b"anything"),
        Value::Null,
    );
    assert!(matches!(r, Err(Error::ObjectSealed)));
    let r = FunctionObject(o).install_dynamic_property(&mut arena, &public(b"x"), Value::Null);
    assert!(matches!(r, Err(Error::ObjectSealed)));
}

#[test]
fn slots_are_fixed_offset_storage() {
    let mut arena = Arena::new();
    let mut ctx = UpdateContext::new(6);
    let o = arena.bare_object();
    let name = public(b"hp");
    FunctionObject(o).install_slot(&mut arena, &name, 3, Value::Number(NumberValue::Finite(100)));
    let v = FunctionObject(o).get_slot(&arena, 3).unwrap();
    assert!(value_matches(&v, &Value::Number(NumberValue::Finite(100))));
    // The named path reaches the same storage.
    let got = get_done(&arena, &mut ctx, o, &name);
    assert!(value_matches(&got, &Value::Number(NumberValue::Finite(100))));
    // Writing through the slot id shows up under the name.
    FunctionObject(o).set_slot(&mut arena, 3, Value::Number(NumberValue::Finite(55))).unwrap();
    let got = get_done(&arena, &mut ctx, o, &name);
    assert!(value_matches(&got, &Value::Number(NumberValue::Finite(55))));
    FunctionObject(o).init_slot(&mut arena, 3, Value::Number(NumberValue::Finite(1))).unwrap();
    let v = FunctionObject(o).get_slot(&arena, 3).unwrap();
    assert!(value_matches(&v, &Value::Number(NumberValue::Finite(1))));
    // A slot outside the table is an error.
    assert!(matches!(FunctionObject(o).get_slot(&arena, 9), Err(Error::SlotOutOfBounds)));
    assert!(matches!(
        FunctionObject(o).set_slot(&mut arena, 9, Value::Null),
        Err(Error::SlotOutOfBounds)
    ));
}

#[test]
fn installed_methods_resolve_by_name_and_dispatch_id() {
    let mut arena = Arena::new();
    let mut ctx = UpdateContext::new(6);
    let fn_proto = arena.bare_object();
    let f = FunctionObject::from_builtin(&mut arena, NativeMethod::ReturnThis, fn_proto);
    let o = arena.bare_object();
    let name = public(b"toString");
    FunctionObject(o).install_method(&mut arena, &name, 4, f);
    assert_eq!(FunctionObject(o).get_method(&arena, 4), Some(f));
    assert_eq!(FunctionObject(o).get_method(&arena, 5), None);
    let got = get_done(&arena, &mut ctx, o, &name);
    assert!(value_matches(&got, &Value::Object(f)));
    // Methods resist the general assignment path.
    let r = FunctionObject(o).set_property_local(&mut arena, &mut ctx, &name, Value::Null);
    assert!(matches!(r, Err(Error::PropertyNotOverwritable)));
}

#[test]
fn computed_properties_run_their_getter() {
    let mut arena = Arena::new();
    let mut ctx = UpdateContext::new(6);
    let fn_proto = arena.bare_object();
    let getter = FunctionObject::from_builtin(&mut arena, NativeMethod::GetNan, fn_proto);
    let o = arena.bare_object();
    let name = public(b"quietNaN");
    FunctionObject(o).install_getter(&mut arena, &name, 1, getter).unwrap();
    assert!(FunctionObject(o).has_own_virtual_getter(&arena, &name));
    assert!(!FunctionObject(o).has_own_virtual_setter(&arena, &name));
    match FunctionObject(o).get_property_local(&arena, &mut ctx, &name).unwrap() {
        ExecOutcome::Done(Value::Number(NumberValue::NotANumber)) => {}
        other => panic!("expected the getter's value, got {:?}", other),
    }
    // Installing a setter keeps the getter.
    let setter = FunctionObject::from_builtin(&mut arena, NativeMethod::ReturnUndefined, fn_proto);
    FunctionObject(o).install_setter(&mut arena, &name, 1, setter).unwrap();
    assert!(FunctionObject(o).has_own_virtual_getter(&arena, &name));
    assert!(FunctionObject(o).has_own_virtual_setter(&arena, &name));
    // A function object with no executable cannot become an accessor.
    let broken = FunctionObject(o).construct(&mut arena, &Vec::new()).unwrap();
    let r = FunctionObject(o).install_getter(&mut arena, &public(b"other"), 2, broken);
    assert!(matches!(r, Err(Error::NotCallable)));
}

#[test]
fn enumeration_follows_insertion_order_of_enumerable_names() {
    let mut arena = Arena::new();
    let o = arena.bare_object();
    let a = public(b"alpha");
    let b = public(b"beta");
    let c = public(b"gamma");
    FunctionObject(o).install_dynamic_property(&mut arena, &a, Value::Null).unwrap();
    FunctionObject(o).install_dynamic_property(&mut arena, &b, Value::Null).unwrap();
    FunctionObject(o).install_dynamic_property(&mut arena, &c, Value::Null).unwrap();
    // Hide the middle one.
    FunctionObject(o).set_local_property_is_enumerable(&mut arena, &b, false).unwrap();
    assert!(FunctionObject(o).property_is_enumerable(&arena, &a));
    assert!(!FunctionObject(o).property_is_enumerable(&arena, &b));

    let first = FunctionObject(o).get_enumerant_name(&arena, 0).unwrap();
    assert_eq!(first.local, b"alpha".to_vec());
    let second = FunctionObject(o).get_enumerant_name(&arena, 1).unwrap();
    assert_eq!(second.local, b"gamma".to_vec());
    assert!(FunctionObject(o).get_enumerant_name(&arena, 2).is_none());
}

#[test]
fn deletion_removes_only_overwritable_stored_properties() {
    let mut arena = Arena::new();
    let o = arena.bare_object();
    let name = public(b"temp");
    FunctionObject(o).install_dynamic_property(&mut arena, &name, Value::Null).unwrap();
    assert!(FunctionObject(o).has_own_property(&arena, &name));
    assert!(FunctionObject(o).delete_property(&mut arena, &name));
    assert!(!FunctionObject(o).has_own_property(&arena, &name));
    // A constant slot stays.
    let fixed = public(b"fixed");
    FunctionObject(o).install_const(&mut arena, &fixed, 0, Value::Null);
    assert!(!FunctionObject(o).delete_property(&mut arena, &fixed));
    assert!(FunctionObject(o).has_own_property(&arena, &fixed));
    assert!(FunctionObject(o).has_instantiated_property(&arena, &fixed));
}

#[test]
fn traits_resolve_by_qualified_name() {
    let mut arena = Arena::new();
    let class = arena.alloc_class(Class {
        name: public(b"WithTraits"),
        super_class_name: None,
        interfaces: Vec::new(),
        instance_init: Method::Entry(BytecodeMethod { method_id: 1 }),
        class_init: Method::Entry(BytecodeMethod { method_id: 2 }),
        traits: vec![
            Trait { name: public(b"x"), kind: TraitKind::Slot { slot_id: 0 } },
            Trait { name: public(b"go"), kind: TraitKind::Method { disp_id: 1 } },
            Trait { name: public(b"x"), kind: TraitKind::Getter { disp_id: 2 } },
        ],
    });
    let root = arena.bare_object();
    let proto = FunctionObject(root).derive(&mut arena, class, None).unwrap();
    let fo = FunctionObject(proto);

    assert!(fo.has_trait(&arena, &public(b"x")).unwrap());
    assert!(fo.provides_trait(&arena, &public(b"go")).unwrap());
    assert!(!fo.provides_trait(&arena, &public(b"absent")).unwrap());

    let found = fo.get_trait(&arena, &public(b"x")).unwrap();
    assert_eq!(found.len(), 2);
    assert!(matches!(found[0].kind, TraitKind::Slot { slot_id: 0 }));
    assert!(matches!(found[1].kind, TraitKind::Getter { disp_id: 2 }));

    let mut known = vec![Trait { name: public(b"seed"), kind: TraitKind::Const { slot_id: 9 } }];
    fo.get_provided_trait(&arena, &public(b"x"), &mut known).unwrap();
    assert_eq!(known.len(), 3);
    assert_eq!(known[0].name.local, b"seed".to_vec());

    // Any-namespace resolution sees traits and own properties.
    match fo.resolve_any_trait(&arena, &b"go".to_vec()).unwrap() {
        Some(Namespace::Public) => {}
        other => panic!("expected the public namespace, got {:?}", other),
    }
    assert!(fo.resolve_any_trait(&arena, &b"nope".to_vec()).unwrap().is_none());
    match fo.resolve_any(&arena, &b"x".to_vec()).unwrap() {
        Some(Namespace::Public) => {}
        other => panic!("expected the public namespace, got {:?}", other),
    }
}

#[test]
fn prototype_chain_reads_and_scope_resolution() {
    let mut arena = Arena::new();
    let root = arena.bare_object();
    FunctionObject(root)
        .install_dynamic_property(&mut arena, &public(b"shared"), Value::Bool(true))
        .unwrap();
    let child = arena.object(Some(root));
    // The chain walk finds the inherited name.
    match arena.get_property(child, &public(b"shared")) {
        Some(Value::Bool(true)) => {}
        other => panic!("expected the inherited value, got {:?}", other),
    }
    assert!(arena.get_property(child, &public(b"missing")).is_none());

    // Scope chains resolve innermost-first.
    let outer_values = arena.bare_object();
    FunctionObject(outer_values)
        .install_dynamic_property(
            &mut arena,
            &public(b"name"),
            Value::String(b"outer".to_vec()),
        )
        .unwrap();
    let inner_values = arena.bare_object();
    FunctionObject(inner_values)
        .install_dynamic_property(
            &mut arena,
            &public(b"name"),
            Value::String(b"inner".to_vec()),
        )
        .unwrap();
    let outer = arena.alloc_scope(None, outer_values);
    let inner = arena.alloc_scope(Some(outer), inner_values);
    match Scope::resolve(&arena, inner, &public(b"name")) {
        Some(Value::String(s)) => assert_eq!(s, b"inner".to_vec()),
        other => panic!("expected the inner binding, got {:?}", other),
    }
    match Scope::resolve(&arena, outer, &public(b"name")) {
        Some(Value::String(s)) => assert_eq!(s, b"outer".to_vec()),
        other => panic!("expected the outer binding, got {:?}", other),
    }
    assert!(Scope::resolve(&arena, inner, &public(b"free")).is_none());
}

#[test]
fn value_of_returns_the_object_itself() {
    let mut arena = Arena::new();
    let o = arena.bare_object();
    match FunctionObject(o).value_of(&arena).unwrap() {
        Value::Object(id) => assert_eq!(id, o),
        other => panic!("expected the object, got {:?}", other),
    }
}

#[test]
fn error_texts_are_nonempty() {
    let errors = vec![
        Error::NotCallable,
        Error::UnresolvedSuperclassPrototype,
        Error::UnresolvedInterface(b"IThing".to_vec()),
        Error::ObjectSealed,
        Error::PropertyNotOverwritable,
        Error::SlotOutOfBounds,
    ];
    for e in &errors {
        assert!(!e.text().is_empty());
    }
}
