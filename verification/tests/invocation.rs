//! Invocation: receiver binding, the not-callable contract, native
//! dispatch and bytecode activation records.

use avm_core::arena::Arena;
use avm_core::function::Executable;
use avm_core::function::ExecOutcome;
use avm_core::function::FunctionObject;
use avm_core::globals::UpdateContext;
use avm_core::method::BytecodeMethod;
use avm_core::method::Method;
use avm_core::method::NativeMethod;
use avm_core::value::NumberValue;
use avm_core::value::Value;

#[test]
fn bound_receiver_ignores_override_for_bytecode() {
    let mut arena = Arena::new();
    let mut ctx = UpdateContext::new(6);
    let bound = arena.bare_object();
    let other1 = arena.bare_object();
    let other2 = arena.bare_object();
    let e = Executable::from_method(
        Method::Entry(BytecodeMethod { method_id: 42 }),
        None,
        Some(bound),
    );
    let r1 = e.exec(Some(other1), Vec::new(), &arena, &mut ctx, None).unwrap();
    let r2 = e.exec(Some(other2), Vec::new(), &arena, &mut ctx, None).unwrap();
    match (r1, r2) {
        (ExecOutcome::RunBytecode(a1), ExecOutcome::RunBytecode(a2)) => {
            assert_eq!(a1.receiver, Some(bound));
            assert_eq!(a2.receiver, Some(bound));
        }
        other => panic!("expected two activation records, got {:?}", other),
    }
}

#[test]
fn bound_receiver_ignores_override_for_native() {
    let mut arena = Arena::new();
    let mut ctx = UpdateContext::new(6);
    let bound = arena.bare_object();
    let other = arena.bare_object();
    let e = Executable::from_method(Method::Native(NativeMethod::ReturnThis), None, Some(bound));
    match e.exec(Some(other), Vec::new(), &arena, &mut ctx, None).unwrap() {
        ExecOutcome::Done(Value::Object(id)) => assert_eq!(id, bound),
        other => panic!("expected the bound receiver back, got {:?}", other),
    }
}

#[test]
fn unbound_executable_uses_supplied_receiver() {
    let mut arena = Arena::new();
    let mut ctx = UpdateContext::new(6);
    let supplied = arena.bare_object();
    let e = Executable::from_method(Method::Native(NativeMethod::ReturnThis), None, None);
    match e.exec(Some(supplied), Vec::new(), &arena, &mut ctx, None).unwrap() {
        ExecOutcome::Done(Value::Object(id)) => assert_eq!(id, supplied),
        other => panic!("expected the supplied receiver back, got {:?}", other),
    }
}

#[test]
fn constructed_object_is_not_callable() {
    let mut arena = Arena::new();
    let mut ctx = UpdateContext::new(6);
    let p = arena.bare_object();
    let f = FunctionObject::from_builtin(&mut arena, NativeMethod::ReturnThis, p);
    let instance = FunctionObject(f).construct(&mut arena, &Vec::new()).unwrap();
    assert!(FunctionObject(instance).as_executable(&arena).is_none());
    assert_eq!(FunctionObject(instance).proto(&arena), Some(f));
    let r = FunctionObject(instance).call(&arena, &mut ctx, None, Vec::new(), None);
    assert!(matches!(r, Err(avm_core::error::Error::NotCallable)));
    // The same holds with whatever arguments.
    let args = vec![Value::Bool(true), Value::Number(NumberValue::Finite(9))];
    let r = FunctionObject(instance).call(&arena, &mut ctx, Some(instance), args, None);
    assert!(matches!(r, Err(avm_core::error::Error::NotCallable)));
}

#[test]
fn derived_object_is_not_callable() {
    let mut arena = Arena::new();
    let mut ctx = UpdateContext::new(6);
    let proto = arena.bare_object();
    let class = arena.alloc_class(avm_core::class::Class {
        name: avm_core::names::QName::new(
            avm_core::names::Namespace::public_namespace(),
            b"Marker".to_vec(),
        ),
        super_class_name: None,
        interfaces: Vec::new(),
        instance_init: Method::Entry(BytecodeMethod { method_id: 1 }),
        class_init: Method::Entry(BytecodeMethod { method_id: 2 }),
        traits: Vec::new(),
    });
    let derived = FunctionObject(proto).derive(&mut arena, class, None).unwrap();
    assert!(FunctionObject(derived).as_executable(&arena).is_none());
    let r = FunctionObject(derived).call(&arena, &mut ctx, None, Vec::new(), None);
    assert!(matches!(r, Err(avm_core::error::Error::NotCallable)));
}

#[test]
fn native_call_through_function_object() {
    let mut arena = Arena::new();
    let mut ctx = UpdateContext::new(6);
    let fn_proto = arena.bare_object();
    let f = FunctionObject::from_builtin(&mut arena, NativeMethod::ReturnArgumentCount, fn_proto);
    let args = vec![Value::Null, Value::Bool(false), Value::Undefined];
    match FunctionObject(f).call(&arena, &mut ctx, None, args, None).unwrap() {
        ExecOutcome::Done(Value::Number(NumberValue::Finite(n))) => assert_eq!(n, 3),
        other => panic!("expected the argument count, got {:?}", other),
    }
}

#[test]
fn bytecode_activation_record_carries_everything() {
    let mut arena = Arena::new();
    let mut ctx = UpdateContext::new(6);
    let values = arena.bare_object();
    let scope = arena.alloc_scope(None, values);
    let fn_proto = arena.bare_object();
    let base_proto = arena.bare_object();
    let f = FunctionObject::from_method(
        &mut arena,
        Method::Entry(BytecodeMethod { method_id: 99 }),
        Some(scope),
        fn_proto,
        None,
    );
    let receiver = arena.bare_object();
    let args = vec![Value::Number(NumberValue::Finite(1)), Value::Bool(true)];
    match FunctionObject(f)
        .call(&arena, &mut ctx, Some(receiver), args, Some(base_proto))
        .unwrap()
    {
        ExecOutcome::RunBytecode(act) => {
            assert_eq!(act.method, BytecodeMethod { method_id: 99 });
            assert_eq!(act.scope, Some(scope));
            assert_eq!(act.receiver, Some(receiver));
            assert_eq!(act.base_proto, Some(base_proto));
            assert_eq!(act.arguments.len(), 2);
            assert!(matches!(act.arguments[0], Value::Number(NumberValue::Finite(1))));
            assert!(matches!(act.arguments[1], Value::Bool(true)));
        }
        other => panic!("expected an activation record, got {:?}", other),
    }
}
