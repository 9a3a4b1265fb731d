//! Class derivation: mutual linkage, interface propagation, base-less
//! derivation, missing interfaces and builtin constructor wiring.

use avm_core::arena::Arena;
use avm_core::class::Class;
use avm_core::error::Error;
use avm_core::function::ExecOutcome;
use avm_core::function::FunctionObject;
use avm_core::globals::UpdateContext;
use avm_core::method::BytecodeMethod;
use avm_core::method::Method;
use avm_core::method::NativeMethod;
use avm_core::names::Namespace;
use avm_core::names::QName;
use avm_core::object::ScriptObjectClass;
use avm_core::value::Value;

fn public(name: &[u8]) -> QName {
    QName::new(Namespace::public_namespace(), name.to_vec())
}

fn plain_class(name: &[u8], interfaces: Vec<QName>) -> Class {
    Class {
        name: public(name),
        super_class_name: None,
        interfaces,
        instance_init: Method::Entry(BytecodeMethod { method_id: 10 }),
        class_init: Method::Entry(BytecodeMethod { method_id: 11 }),
        traits: Vec::new(),
    }
}

/// Build the two root prototypes and return (fn_proto, class_constr_proto).
fn roots(arena: &mut Arena) -> (usize, usize) {
    let object_proto = arena.bare_object();
    let fn_proto = arena.object(Some(object_proto));
    let class_constr_proto = arena.object(Some(object_proto));
    (fn_proto, class_constr_proto)
}

fn get_object(arena: &Arena, ctx: &mut UpdateContext, obj: usize, name: &QName) -> usize {
    match FunctionObject(obj).get_property_local(arena, ctx, name).unwrap() {
        ExecOutcome::Done(Value::Object(id)) => id,
        other => panic!("expected an object property, got {:?}", other),
    }
}

#[test]
fn mutual_linkage_after_derivation() {
    let mut arena = Arena::new();
    let mut ctx = UpdateContext::new(6);
    let (fn_proto, ccp) = roots(&mut arena);
    let base_proto = arena.object(None);
    let base_constr =
        FunctionObject::from_builtin_constr(&mut arena, NativeMethod::ReturnUndefined, base_proto, fn_proto)
            .unwrap();
    let class = arena.alloc_class(plain_class(b"Sprite", Vec::new()));

    let (constr, _static_init) =
        FunctionObject::from_class(&mut arena, class, Some(base_constr), None, fn_proto, ccp)
            .unwrap();

    let proto = get_object(&arena, &mut ctx, constr, &public(b"prototype"));
    let back = get_object(&arena, &mut ctx, proto, &public(b"constructor"));
    assert_eq!(back, constr);
    // The derived instance prototype chains to the base class's prototype.
    assert_eq!(FunctionObject(proto).proto(&arena), Some(base_proto));
    assert_eq!(
        arena.objects[proto].base.class,
        ScriptObjectClass::InstancePrototype(class, None)
    );
    assert_eq!(
        arena.objects[constr].base.class,
        ScriptObjectClass::ClassConstructor(class, None)
    );
}

#[test]
fn interface_propagation_in_declaration_order() {
    let mut arena = Arena::new();
    let mut ctx = UpdateContext::new(6);
    let (fn_proto, ccp) = roots(&mut arena);

    // Two interface constructors, each exposing a prototype.
    let i1_proto = arena.object(None);
    let i1 = FunctionObject::from_builtin_constr(&mut arena, NativeMethod::ReturnUndefined, i1_proto, fn_proto)
        .unwrap();
    let i2_proto = arena.object(None);
    let i2 = FunctionObject::from_builtin_constr(&mut arena, NativeMethod::ReturnUndefined, i2_proto, fn_proto)
        .unwrap();

    // A scope whose values object binds the interface names.
    let values = arena.bare_object();
    FunctionObject(values)
        .install_dynamic_property(&mut arena, &public(b"IFirst"), Value::Object(i1))
        .unwrap();
    FunctionObject(values)
        .install_dynamic_property(&mut arena, &public(b"ISecond"), Value::Object(i2))
        .unwrap();
    let scope = arena.alloc_scope(None, values);

    let class = arena.alloc_class(plain_class(
        b"Shape",
        vec![public(b"IFirst"), public(b"ISecond")],
    ));
    let (constr, _) =
        FunctionObject::from_class(&mut arena, class, None, Some(scope), fn_proto, ccp).unwrap();

    let proto = get_object(&arena, &mut ctx, constr, &public(b"prototype"));
    let ifaces = FunctionObject(proto).interfaces(&arena);
    assert_eq!(ifaces, vec![i1_proto, i2_proto]);
}

#[test]
fn zero_interfaces_is_empty_not_unset() {
    let mut arena = Arena::new();
    let mut ctx = UpdateContext::new(6);
    let (fn_proto, ccp) = roots(&mut arena);
    let values = arena.bare_object();
    let scope = arena.alloc_scope(None, values);
    let class = arena.alloc_class(plain_class(b"Plain", Vec::new()));
    let (constr, _) =
        FunctionObject::from_class(&mut arena, class, None, Some(scope), fn_proto, ccp).unwrap();
    let proto = get_object(&arena, &mut ctx, constr, &public(b"prototype"));
    assert_eq!(FunctionObject(proto).interfaces(&arena), Vec::<usize>::new());
}

#[test]
fn baseless_derivation_gives_root_level_prototype() {
    let mut arena = Arena::new();
    let mut ctx = UpdateContext::new(6);
    let (fn_proto, ccp) = roots(&mut arena);
    let class = arena.alloc_class(plain_class(b"IExternalizable", Vec::new()));
    let (constr, _) =
        FunctionObject::from_class(&mut arena, class, None, None, fn_proto, ccp).unwrap();
    let proto = get_object(&arena, &mut ctx, constr, &public(b"prototype"));
    // The prototype of a base-less class is a bare root-level object with
    // no distinguishing class marker.
    assert_eq!(FunctionObject(proto).proto(&arena), None);
    assert_eq!(arena.objects[proto].base.class, ScriptObjectClass::NoClass);
}

#[test]
fn missing_interface_aborts_derivation() {
    let mut arena = Arena::new();
    let (fn_proto, ccp) = roots(&mut arena);
    let values = arena.bare_object();
    let scope = arena.alloc_scope(None, values);
    let class = arena.alloc_class(plain_class(b"Broken", vec![public(b"INotThere")]));
    let before = arena.objects.len();
    let r = FunctionObject::from_class(&mut arena, class, None, Some(scope), fn_proto, ccp);
    match r {
        Err(Error::UnresolvedInterface(name)) => assert_eq!(name, b"INotThere".to_vec()),
        other => panic!("expected an unresolved-interface error, got {:?}", other),
    }
    // Nothing was published: no constructor/prototype pair was built.
    assert_eq!(arena.objects.len(), before);
}

#[test]
fn missing_superclass_prototype_aborts_derivation() {
    let mut arena = Arena::new();
    let (fn_proto, ccp) = roots(&mut arena);
    // A base "class" with no prototype property at all.
    let bad_base = arena.bare_object();
    let class = arena.alloc_class(plain_class(b"Child", Vec::new()));
    let before = arena.objects.len();
    let r = FunctionObject::from_class(&mut arena, class, Some(bad_base), None, fn_proto, ccp);
    assert!(matches!(r, Err(Error::UnresolvedSuperclassPrototype)));
    assert_eq!(arena.objects.len(), before);
}

#[test]
fn builtin_constructor_wiring() {
    let mut arena = Arena::new();
    let mut ctx = UpdateContext::new(6);
    let (fn_proto, _) = roots(&mut arena);
    let p = arena.object(None);
    let c = FunctionObject::from_builtin_constr(&mut arena, NativeMethod::ReturnUndefined, p, fn_proto)
        .unwrap();
    assert_eq!(get_object(&arena, &mut ctx, c, &public(b"prototype")), p);
    assert_eq!(get_object(&arena, &mut ctx, p, &public(b"constructor")), c);
}

#[test]
fn builtin_constructor_on_sealed_prototype_fails() {
    let mut arena = Arena::new();
    let (fn_proto, _) = roots(&mut arena);
    let p = arena.object(None);
    arena.objects[p].base.extensible = false;
    let before = arena.objects.len();
    let r = FunctionObject::from_builtin_constr(&mut arena, NativeMethod::ReturnUndefined, p, fn_proto);
    assert!(matches!(r, Err(Error::ObjectSealed)));
    assert_eq!(arena.objects.len(), before);
}

#[test]
fn class_constructor_renders_its_class_name() {
    let mut arena = Arena::new();
    let (fn_proto, ccp) = roots(&mut arena);
    let class = arena.alloc_class(plain_class(b"Sprite", Vec::new()));
    let (constr, _) =
        FunctionObject::from_class(&mut arena, class, None, None, fn_proto, ccp).unwrap();
    match FunctionObject(constr).to_string(&arena).unwrap() {
        Value::String(s) => assert_eq!(s, b"[class Sprite]".to_vec()),
        other => panic!("expected text, got {:?}", other),
    }
    match FunctionObject(fn_proto).to_string(&arena).unwrap() {
        Value::String(s) => assert_eq!(s, b"function Function() {}".to_vec()),
        other => panic!("expected text, got {:?}", other),
    }
}

#[test]
fn static_initializer_is_returned_not_invoked() {
    let mut arena = Arena::new();
    let (fn_proto, ccp) = roots(&mut arena);
    let class = arena.alloc_class(plain_class(b"WithStatics", Vec::new()));
    let (constr, static_init) =
        FunctionObject::from_class(&mut arena, class, None, None, fn_proto, ccp).unwrap();
    assert_ne!(constr, static_init);
    // The static initializer is itself callable, chained to the class
    // constructor prototype, and still waiting to be run.
    assert!(FunctionObject(static_init).as_executable(&arena).is_some());
    assert_eq!(FunctionObject(static_init).proto(&arena), Some(ccp));
}
