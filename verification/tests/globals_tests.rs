//! The host globals: random, isNaN, the NaN/Infinity getters, the timer
//! family, the render flag, and the coercion model behind them.

use avm_core::arena::Arena;
use avm_core::function::ExecOutcome;
use avm_core::function::FunctionObject;
use avm_core::globals::TimerCallback;
use avm_core::globals::UpdateContext;
use avm_core::globals::clear_interval;
use avm_core::globals::create_globals;
use avm_core::globals::create_timer;
use avm_core::globals::get_infinity;
use avm_core::globals::get_nan;
use avm_core::globals::is_nan;
use avm_core::globals::random;
use avm_core::globals::set_interval;
use avm_core::globals::set_timeout;
use avm_core::globals::update_after_event;
use avm_core::method::NativeMethod;
use avm_core::names::Namespace;
use avm_core::names::QName;
use avm_core::value::NumberValue;
use avm_core::value::Value;
use avm_core::value::coerce_to_i32;
use avm_core::value::coerce_to_string;
use avm_core::value::number_text;

fn public(name: &[u8]) -> QName {
    QName::new(Namespace::public_namespace(), name.to_vec())
}

#[test]
fn random_stays_below_its_bound() {
    let mut ctx = UpdateContext::new(6);
    for _ in 0..100 {
        let args = vec![Value::Number(NumberValue::Finite(10))];
        match random(&mut ctx, &args).unwrap() {
            Value::Number(NumberValue::Finite(k)) => assert!((0..10).contains(&k)),
            other => panic!("expected a number, got {:?}", other),
        }
    }
}

#[test]
fn random_with_bound_one_is_zero() {
    // The draw is random, but below a bound of one only zero fits; a stub
    // that echoed its argument back would fail here.
    let mut ctx = UpdateContext::new(6);
    let args = vec![Value::Number(NumberValue::Finite(1))];
    match random(&mut ctx, &args).unwrap() {
        Value::Number(NumberValue::Finite(k)) => assert_eq!(k, 0),
        other => panic!("expected a number, got {:?}", other),
    }
}

#[test]
fn random_without_usable_bound_is_undefined() {
    let mut ctx = UpdateContext::new(6);
    assert!(matches!(random(&mut ctx, &Vec::new()).unwrap(), Value::Undefined));
    let zero = vec![Value::Number(NumberValue::Finite(0))];
    assert!(matches!(random(&mut ctx, &zero).unwrap(), Value::Undefined));
    let nan = vec![Value::Number(NumberValue::NotANumber)];
    assert!(matches!(random(&mut ctx, &nan).unwrap(), Value::Undefined));
    let text = vec![Value::String(b"7".to_vec())];
    assert!(matches!(random(&mut ctx, &text).unwrap(), Value::Undefined));
}

#[test]
fn is_nan_over_the_value_model() {
    let mut ctx = UpdateContext::new(6);
    let t = |v: Value, expected: bool, ctx: &mut UpdateContext| {
        match is_nan(ctx, &vec![v]).unwrap() {
            Value::Bool(b) => assert_eq!(b, expected),
            other => panic!("expected a boolean, got {:?}", other),
        }
    };
    t(Value::Number(NumberValue::NotANumber), true, &mut ctx);
    t(Value::Number(NumberValue::Finite(10)), false, &mut ctx);
    t(Value::Number(NumberValue::PositiveInfinity), false, &mut ctx);
    t(Value::Bool(true), false, &mut ctx);
    t(Value::String(b"Hello".to_vec()), true, &mut ctx);
    t(Value::Undefined, true, &mut ctx);
    t(Value::Null, true, &mut ctx);
    // No argument at all counts as not-a-number.
    match is_nan(&mut ctx, &Vec::new()).unwrap() {
        Value::Bool(b) => assert!(b),
        other => panic!("expected a boolean, got {:?}", other),
    }
}

#[test]
fn nan_and_infinity_are_version_gated() {
    let mut old_ctx = UpdateContext::new(4);
    assert!(matches!(get_nan(&mut old_ctx, &Vec::new()).unwrap(), Value::Undefined));
    assert!(matches!(get_infinity(&mut old_ctx, &Vec::new()).unwrap(), Value::Undefined));
    let mut new_ctx = UpdateContext::new(5);
    assert!(matches!(
        get_nan(&mut new_ctx, &Vec::new()).unwrap(),
        Value::Number(NumberValue::NotANumber)
    ));
    assert!(matches!(
        get_infinity(&mut new_ctx, &Vec::new()).unwrap(),
        Value::Number(NumberValue::PositiveInfinity)
    ));
}

#[test]
fn set_interval_schedules_a_function_timer() {
    let mut arena = Arena::new();
    let mut ctx = UpdateContext::new(6);
    let fn_proto = arena.bare_object();
    let f = FunctionObject::from_builtin(&mut arena, NativeMethod::ReturnThis, fn_proto);
    let args = vec![
        Value::Object(f),
        Value::Number(NumberValue::Finite(30)),
        Value::Bool(true),
    ];
    match set_interval(&arena, &mut ctx, &args).unwrap() {
        Value::Number(NumberValue::Finite(id)) => assert_eq!(id, 1),
        other => panic!("expected a timer id, got {:?}", other),
    }
    assert_eq!(ctx.timers.timers.len(), 1);
    let t = &ctx.timers.timers[0];
    assert_eq!(t.id, 1);
    assert_eq!(t.interval, 30);
    assert!(!t.is_timeout);
    assert!(matches!(t.callback, TimerCallback::Function(id) if id == f));
    assert_eq!(t.params.len(), 1);
    assert!(matches!(t.params[0], Value::Bool(true)));
}

#[test]
fn set_timeout_schedules_a_method_timer() {
    let mut arena = Arena::new();
    let mut ctx = UpdateContext::new(6);
    let target = arena.bare_object();
    let args = vec![
        Value::Object(target),
        Value::String(b"tick".to_vec()),
        Value::Number(NumberValue::Finite(50)),
        Value::Number(NumberValue::Finite(7)),
    ];
    match set_timeout(&arena, &mut ctx, &args).unwrap() {
        Value::Number(NumberValue::Finite(id)) => assert_eq!(id, 1),
        other => panic!("expected a timer id, got {:?}", other),
    }
    let t = &ctx.timers.timers[0];
    assert!(t.is_timeout);
    assert_eq!(t.interval, 50);
    match &t.callback {
        TimerCallback::Method { this, method_name } => {
            assert_eq!(*this, target);
            assert_eq!(method_name, &b"tick".to_vec());
        }
        other => panic!("expected a method callback, got {:?}", other),
    }
    assert_eq!(t.params.len(), 1);
    assert!(matches!(t.params[0], Value::Number(NumberValue::Finite(7))));
}

#[test]
fn create_timer_without_interval_schedules_nothing() {
    let mut arena = Arena::new();
    let mut ctx = UpdateContext::new(6);
    let fn_proto = arena.bare_object();
    let f = FunctionObject::from_builtin(&mut arena, NativeMethod::ReturnThis, fn_proto);
    let args = vec![Value::Object(f)];
    assert!(matches!(create_timer(&arena, &mut ctx, &args, false).unwrap(), Value::Undefined));
    let args = vec![Value::Object(f), Value::Undefined];
    assert!(matches!(create_timer(&arena, &mut ctx, &args, false).unwrap(), Value::Undefined));
    let args = vec![Value::Number(NumberValue::Finite(3))];
    assert!(matches!(create_timer(&arena, &mut ctx, &args, false).unwrap(), Value::Undefined));
    assert_eq!(ctx.timers.timers.len(), 0);
}

#[test]
fn clear_interval_removes_the_named_timer() {
    let mut arena = Arena::new();
    let mut ctx = UpdateContext::new(6);
    let fn_proto = arena.bare_object();
    let f = FunctionObject::from_builtin(&mut arena, NativeMethod::ReturnThis, fn_proto);
    let schedule = vec![Value::Object(f), Value::Number(NumberValue::Finite(10))];
    set_interval(&arena, &mut ctx, &schedule).unwrap();
    set_interval(&arena, &mut ctx, &schedule).unwrap();
    assert_eq!(ctx.timers.timers.len(), 2);
    // Ids count up from one.
    assert_eq!(ctx.timers.timers[0].id, 1);
    assert_eq!(ctx.timers.timers[1].id, 2);

    let clear = vec![Value::Number(NumberValue::Finite(1))];
    assert!(matches!(clear_interval(&mut ctx, &clear).unwrap(), Value::Undefined));
    assert_eq!(ctx.timers.timers.len(), 1);
    assert_eq!(ctx.timers.timers[0].id, 2);

    // Clearing an id that does not exist changes nothing.
    let clear_again = vec![Value::Number(NumberValue::Finite(77))];
    assert!(matches!(clear_interval(&mut ctx, &clear_again).unwrap(), Value::Undefined));
    assert_eq!(ctx.timers.timers.len(), 1);
}

#[test]
fn update_after_event_raises_the_render_flag() {
    let mut ctx = UpdateContext::new(6);
    assert!(!ctx.needs_render);
    assert!(matches!(update_after_event(&mut ctx, &Vec::new()).unwrap(), Value::Undefined));
    assert!(ctx.needs_render);
}

#[test]
fn globals_expose_the_builtins() {
    let mut arena = Arena::new();
    let mut ctx = UpdateContext::new(6);
    let (protos, globals) = create_globals(&mut arena);
    assert_eq!(
        FunctionObject(protos.function).proto(&arena),
        Some(protos.object)
    );
    // `NaN` resolves through its native getter.
    match FunctionObject(globals)
        .get_property_local(&arena, &mut ctx, &public(b"NaN"))
        .unwrap()
    {
        ExecOutcome::Done(Value::Number(NumberValue::NotANumber)) => {}
        other => panic!("expected not-a-number, got {:?}", other),
    }
    // `isNaN` is an installed, callable function object.
    match FunctionObject(globals)
        .get_property_local(&arena, &mut ctx, &public(b"isNaN"))
        .unwrap()
    {
        ExecOutcome::Done(Value::Object(f)) => {
            assert!(FunctionObject(f).as_executable(&arena).is_some());
        }
        other => panic!("expected a function object, got {:?}", other),
    }
    // The rectangle constructor is wired to its prototype.
    match FunctionObject(protos.rectangle_constructor)
        .get_property_local(&arena, &mut ctx, &public(b"prototype"))
        .unwrap()
    {
        ExecOutcome::Done(Value::Object(p)) => assert_eq!(p, protos.rectangle),
        other => panic!("expected the rectangle prototype, got {:?}", other),
    }
}

#[test]
fn number_rendering_is_exact() {
    assert_eq!(number_text(NumberValue::Finite(0)), b"0".to_vec());
    assert_eq!(number_text(NumberValue::Finite(907)), b"907".to_vec());
    assert_eq!(number_text(NumberValue::Finite(-123)), b"-123".to_vec());
    assert_eq!(
        number_text(NumberValue::Finite(i64::MIN)),
        b"-9223372036854775808".to_vec()
    );
    assert_eq!(number_text(NumberValue::NotANumber), b"NaN".to_vec());
    assert_eq!(number_text(NumberValue::PositiveInfinity), b"Infinity".to_vec());
    assert_eq!(number_text(NumberValue::NegativeInfinity), b"-Infinity".to_vec());
}

#[test]
fn coercions_follow_the_model() {
    assert_eq!(coerce_to_i32(&Value::Number(NumberValue::Finite(5))), 5);
    assert_eq!(coerce_to_i32(&Value::Number(NumberValue::Finite(-5))), -5);
    assert_eq!(coerce_to_i32(&Value::Number(NumberValue::NotANumber)), 0);
    assert_eq!(coerce_to_i32(&Value::Number(NumberValue::PositiveInfinity)), 0);
    // Finite numbers outside the 32-bit range coerce to zero in this model.
    assert_eq!(
        coerce_to_i32(&Value::Number(NumberValue::Finite(i64::MAX))),
        0
    );
    assert_eq!(coerce_to_i32(&Value::Bool(true)), 1);
    assert_eq!(coerce_to_i32(&Value::Undefined), 0);

    assert_eq!(coerce_to_string(&Value::Undefined), b"undefined".to_vec());
    assert_eq!(coerce_to_string(&Value::Null), b"null".to_vec());
    assert_eq!(coerce_to_string(&Value::Bool(true)), b"true".to_vec());
    assert_eq!(coerce_to_string(&Value::Bool(false)), b"false".to_vec());
    assert_eq!(coerce_to_string(&Value::String(b"abc".to_vec())), b"abc".to_vec());
    assert_eq!(
        coerce_to_string(&Value::Number(NumberValue::Finite(12))),
        b"12".to_vec()
    );
    assert_eq!(coerce_to_string(&Value::Object(0)), b"[type Object]".to_vec());
}
