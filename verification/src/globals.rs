//! The host-native global functions and the host context they act on:
//! `random`, `isNaN`, the `NaN` and `Infinity` getters, the timer family and
//! the render flag, plus the bundle of system prototypes the bootstrap
//! builds.

use crate::arena::Arena;
use crate::error::Error;
use crate::value::NumberValue;
use crate::value::Value;
use crate::value::spec_coerce_to_i32;
use crate::value::spec_coerce_to_number;
use crate::value::spec_coerce_to_string;
use crate::value::values_eq;
use crate::value::values_ok;
use vstd::prelude::*;

verus! {

/// What a timer invokes when it fires: a function value directly, or a
/// named method looked up on an object at fire time.
#[derive(Clone, Debug)]
pub enum TimerCallback {
    /// Call this function object.
    Function(usize),
    /// Call the named method on this object.
    Method { this: usize, method_name: Vec<u8> },
}

/// One scheduled timer.
#[derive(Clone, Debug)]
pub struct Timer {
    /// The id `clearInterval` removes it by.
    pub id: i32,
    /// What to invoke when the timer fires.
    pub callback: TimerCallback,
    /// The interval, in milliseconds, as the script supplied it.
    pub interval: i32,
    /// Extra arguments handed to the callback.
    pub params: Vec<Value>,
    /// Whether the timer fires once (`setTimeout`) or repeatedly
    /// (`setInterval`).
    pub is_timeout: bool,
}

/// The timer table of the host context.
#[derive(Clone, Debug)]
pub struct Timers {
    /// The scheduled timers, in scheduling order.
    pub timers: Vec<Timer>,
    /// The id the next scheduled timer gets.
    pub next_id: i32,
}

/// The id that follows `id`: ids grow by one and wrap back to one at the
/// top of the range.
pub open spec fn spec_next_timer_id(id: i32) -> i32 {
    if id == i32::MAX {
        1
    } else {
        (id + 1) as i32
    }
}

/// The index of the first scheduled timer with this id.
pub open spec fn spec_timer_index(timers: Seq<Timer>, id: i32) -> Option<int>
    decreases timers.len(),
{
    if timers.len() == 0 {
        None
    } else if timers[0].id == id {
        Some(0int)
    } else {
        match spec_timer_index(timers.subrange(1, timers.len() as int), id) {
            Some(i) => Some(i + 1),
            None => None,
        }
    }
}

/// The index found is in bounds, carries the id, and is the first such.
pub proof fn lemma_timer_index(timers: Seq<Timer>, id: i32)
    ensures
        match spec_timer_index(timers, id) {
            Some(i) => 0 <= i < timers.len() && timers[i].id == id && (forall|j: int|
                0 <= j < i ==> timers[j].id != id),
            None => forall|j: int| 0 <= j < timers.len() ==> timers[j].id != id,
        },
    decreases timers.len(),
{
    if timers.len() == 0 {
    } else if timers[0].id == id {
    } else {
        let rest = timers.subrange(1, timers.len() as int);
        lemma_timer_index(rest, id);
        assert forall|j: int| 1 <= j < timers.len() implies #[trigger] timers[j] == rest[j - 1] by {
            assert(rest[j - 1] == timers[j]);
        }
    }
}

impl Timers {
    /// An empty timer table; ids start at one.
    pub fn new() -> (t: Timers)
        ensures
            t.timers@.len() == 0,
            t.next_id == 1i32,
    {
        Timers { timers: Vec::new(), next_id: 1 }
    }

    /// Schedule a timer and return its id.
    pub fn add_timer(
        &mut self,
        callback: TimerCallback,
        interval: i32,
        params: Vec<Value>,
        is_timeout: bool,
    ) -> (id: i32)
        ensures
            id == old(self).next_id,
            final(self).next_id == spec_next_timer_id(old(self).next_id),
            final(self).timers@ == old(self).timers@.push(
                Timer { id: old(self).next_id, callback, interval, params, is_timeout },
            ),
    {
        let id = self.next_id;
        self.timers.push(Timer { id, callback, interval, params, is_timeout });
        if self.next_id == i32::MAX {
            self.next_id = 1;
        } else {
            self.next_id = self.next_id + 1;
        }
        id
    }

    /// Remove the first scheduled timer with this id; the result says
    /// whether there was one.
    pub fn remove(&mut self, id: i32) -> (r: bool)
        ensures
            final(self).next_id == old(self).next_id,
            match spec_timer_index(old(self).timers@, id) {
                Some(i) => r && final(self).timers@ == old(self).timers@.remove(i),
                None => !r && *final(self) == *old(self),
            },
    {
        proof {
            lemma_timer_index(self.timers@, id);
        }
        let n = self.timers.len();
        let mut i: usize = 0;
        while i < n
            invariant
                *self == *old(self),
                n == self.timers@.len(),
                i <= n,
                forall|j: int| 0 <= j < i ==> self.timers@[j].id != id,
            decreases n - i,
        {
            if self.timers[i].id == id {
                proof {
                    lemma_timer_index(self.timers@, id);
                    match spec_timer_index(self.timers@, id) {
                        Some(k) => {
                            assert(k == i);
                        },
                        None => {
                            assert(false);
                        },
                    }
                }
                self.timers.remove(i);
                return true;
            }
            i += 1;
        }
        false
    }
}

/// The host context the global functions act on: the timer table, the
/// deferred-render flag and the running movie's format version.
#[derive(Clone, Debug)]
pub struct UpdateContext {
    /// The scheduled timers.
    pub timers: Timers,
    /// Set when a handler asks for an immediate redraw.
    pub needs_render: bool,
    /// The format version of the running movie; some globals are gated on
    /// it.
    pub swf_version: u32,
}

impl UpdateContext {
    /// A fresh context for a movie of the given format version.
    pub fn new(swf_version: u32) -> (c: UpdateContext)
        ensures
            c.timers.timers@.len() == 0,
            c.timers.next_id == 1i32,
            !c.needs_render,
            c.swf_version == swf_version,
    {
        UpdateContext { timers: Timers::new(), needs_render: false, swf_version }
    }
}

/// The system builtin prototypes that exist regardless of what happens to
/// the global object afterwards. They are, of course, script-modifiable.
#[derive(Clone, Copy, Debug, PartialEq, Eq, Structural)]
pub struct SystemPrototypes {
    pub button: usize,
    pub object: usize,
    pub function: usize,
    pub movie_clip: usize,
    pub sound: usize,
    pub text_field: usize,
    pub text_format: usize,
    pub array: usize,
    pub xml_node: usize,
    pub string: usize,
    pub number: usize,
    pub boolean: usize,
    pub matrix: usize,
    pub point: usize,
    pub rectangle: usize,
    pub rectangle_constructor: usize,
    pub shared_object: usize,
    pub color_transform: usize,
    pub context_menu: usize,
    pub context_menu_item: usize,
}

impl SystemPrototypes {
    /// Every prototype the bundle names exists in an arena of `len`
    /// objects.
    pub open spec fn spec_valid(self, len: nat) -> bool {
        &&& self.button < len
        &&& self.object < len
        &&& self.function < len
        &&& self.movie_clip < len
        &&& self.sound < len
        &&& self.text_field < len
        &&& self.text_format < len
        &&& self.array < len
        &&& self.xml_node < len
        &&& self.string < len
        &&& self.number < len
        &&& self.boolean < len
        &&& self.matrix < len
        &&& self.point < len
        &&& self.rectangle < len
        &&& self.rectangle_constructor < len
        &&& self.shared_object < len
        &&& self.color_transform < len
        &&& self.context_menu < len
        &&& self.context_menu_item < len
    }
}

/// A public qualified name over the given bytes.
fn public_name(local: Vec<u8>) -> (q: crate::names::QName)
    ensures
        q.ns is Public,
        q.local == local,
{
    crate::names::QName::new(crate::names::Namespace::public_namespace(), local)
}

/// Initialize the default global scope and builtins for a virtual machine
/// instance: the system prototypes, the global functions, and the `NaN` and
/// `Infinity` getters. The intrinsic class constructors and members beyond
/// these live in the host's class library, outside this core; their
/// prototypes here are plain objects ready to be populated.
pub fn create_globals(arena: &mut crate::arena::Arena) -> (r: (SystemPrototypes, usize))
    requires
        old(arena).wf(),
    ensures
        final(arena).wf(),
        r.0.spec_valid(final(arena).objects@.len() as nat),
        r.1 < final(arena).objects@.len(),
        final(arena).objects@.len() >= old(arena).objects@.len(),
        forall|j: int|
            0 <= j < old(arena).objects@.len() ==> final(arena).objects@[j] == old(
                arena,
            ).objects@[j],
        final(arena).objects@[r.0.object as int].base.proto is None,
        final(arena).objects@[r.0.function as int].base.proto == Some(r.0.object),
        final(arena).objects@[r.0.rectangle_constructor as int].executable == Some(
            crate::function::Executable::Native(crate::method::NativeMethod::ReturnUndefined, None),
        ),
{
    let object_proto = arena.bare_object();
    let function_proto = arena.object(Some(object_proto));
    let button_proto = arena.object(Some(object_proto));
    let movie_clip_proto = arena.object(Some(object_proto));
    let sound_proto = arena.object(Some(object_proto));
    let text_field_proto = arena.object(Some(object_proto));
    let text_format_proto = arena.object(Some(object_proto));
    let array_proto = arena.object(Some(object_proto));
    let xml_node_proto = arena.object(Some(object_proto));
    let string_proto = arena.object(Some(object_proto));
    let number_proto = arena.object(Some(object_proto));
    let boolean_proto = arena.object(Some(object_proto));
    let matrix_proto = arena.object(Some(object_proto));
    let point_proto = arena.object(Some(object_proto));
    let rectangle_proto = arena.object(Some(object_proto));
    let shared_object_proto = arena.object(Some(object_proto));
    let color_transform_proto = arena.object(Some(object_proto));
    let context_menu_proto = arena.object(Some(object_proto));
    let context_menu_item_proto = arena.object(Some(object_proto));

    // The one builtin constructor wired here; the host's class library
    // wires the rest the same way.
    let rectangle_constructor = match crate::function::FunctionObject::from_builtin_constr(
        arena,
        crate::method::NativeMethod::ReturnUndefined,
        rectangle_proto,
        function_proto,
    ) {
        Ok(id) => id,
        Err(_) => rectangle_proto,
    };

    let globals = arena.bare_object();
    let g = crate::function::FunctionObject(globals);

    // isNaN
    let f = crate::function::FunctionObject::from_builtin(
        arena,
        crate::method::NativeMethod::IsNan,
        function_proto,
    );
    let nm = public_name(vec![105u8, 115u8, 78u8, 97u8, 78u8]);
    let _ = g.install_dynamic_property(arena, &nm, crate::value::Value::Object(f));

    // random
    let f = crate::function::FunctionObject::from_builtin(
        arena,
        crate::method::NativeMethod::Random,
        function_proto,
    );
    let nm = public_name(vec![114u8, 97u8, 110u8, 100u8, 111u8, 109u8]);
    let _ = g.install_dynamic_property(arena, &nm, crate::value::Value::Object(f));

    // clearInterval
    let f = crate::function::FunctionObject::from_builtin(
        arena,
        crate::method::NativeMethod::ClearInterval,
        function_proto,
    );
    let nm = public_name(
        vec![
            99u8, 108u8, 101u8, 97u8, 114u8, 73u8, 110u8, 116u8, 101u8, 114u8, 118u8, 97u8, 108u8,
        ],
    );
    let _ = g.install_dynamic_property(arena, &nm, crate::value::Value::Object(f));

    // setInterval
    let f = crate::function::FunctionObject::from_builtin(
        arena,
        crate::method::NativeMethod::SetInterval,
        function_proto,
    );
    let nm = public_name(
        vec![115u8, 101u8, 116u8, 73u8, 110u8, 116u8, 101u8, 114u8, 118u8, 97u8, 108u8],
    );
    let _ = g.install_dynamic_property(arena, &nm, crate::value::Value::Object(f));

    // setTimeout
    let f = crate::function::FunctionObject::from_builtin(
        arena,
        crate::method::NativeMethod::SetTimeout,
        function_proto,
    );
    let nm = public_name(vec![115u8, 101u8, 116u8, 84u8, 105u8, 109u8, 101u8, 111u8, 117u8, 116u8]);
    let _ = g.install_dynamic_property(arena, &nm, crate::value::Value::Object(f));

    // updateAfterEvent
    let f = crate::function::FunctionObject::from_builtin(
        arena,
        crate::method::NativeMethod::UpdateAfterEvent,
        function_proto,
    );
    let nm = public_name(
        vec![
            117u8, 112u8, 100u8, 97u8, 116u8, 101u8, 65u8, 102u8, 116u8, 101u8, 114u8, 69u8,
            118u8, 101u8, 110u8, 116u8,
        ],
    );
    let _ = g.install_dynamic_property(arena, &nm, crate::value::Value::Object(f));

    // NaN and Infinity are computed properties backed by native getters.
    let f = crate::function::FunctionObject::from_builtin(
        arena,
        crate::method::NativeMethod::GetNan,
        function_proto,
    );
    let nm = public_name(vec![78u8, 97u8, 78u8]);
    let _ = g.install_getter(arena, &nm, 0, f);

    let f = crate::function::FunctionObject::from_builtin(
        arena,
        crate::method::NativeMethod::GetInfinity,
        function_proto,
    );
    let nm = public_name(vec![73u8, 110u8, 102u8, 105u8, 110u8, 105u8, 116u8, 121u8]);
    let _ = g.install_getter(arena, &nm, 0, f);

    (
        SystemPrototypes {
            button: button_proto,
            object: object_proto,
            function: function_proto,
            movie_clip: movie_clip_proto,
            sound: sound_proto,
            text_field: text_field_proto,
            text_format: text_format_proto,
            array: array_proto,
            xml_node: xml_node_proto,
            string: string_proto,
            number: number_proto,
            boolean: boolean_proto,
            matrix: matrix_proto,
            point: point_proto,
            rectangle: rectangle_proto,
            rectangle_constructor,
            shared_object: shared_object_proto,
            color_transform: color_transform_proto,
            context_menu: context_menu_proto,
            context_menu_item: context_menu_item_proto,
        },
        globals,
    )
}

/// The bound `random` draws below, when its argument calls for a draw: a
/// finite, positive number. Anything else yields `Undefined` — the
/// deliberate, tested choice for the argument shapes the dynamic language
/// leaves open.
pub open spec fn spec_random_bound(args: Seq<Value>) -> Option<i64> {
    if args.len() > 0 {
        match args[0] {
            Value::Number(NumberValue::Finite(m)) => if m > 0 {
                Some(m)
            } else {
                None
            },
            _ => None,
        }
    } else {
        None
    }
}

/// What `random` returns: a finite number drawn below the bound, or
/// `Undefined` when no bound can be read from the arguments.
pub open spec fn random_post(args: Seq<Value>, r: Result<Value, Error>) -> bool {
    match spec_random_bound(args) {
        Some(m) => match r {
            Ok(Value::Number(NumberValue::Finite(k))) => 0 <= k < m,
            _ => false,
        },
        None => r == Ok::<Value, Error>(Value::Undefined),
    }
}

/// The global `random` function: draw a whole number at random below the
/// given positive finite bound.
pub fn random(context: &mut UpdateContext, args: &Vec<Value>) -> (r: Result<Value, Error>)
    ensures
        *final(context) == *old(context),
        random_post(args@, r),
{
    if args.len() > 0 {
        match &args[0] {
            Value::Number(NumberValue::Finite(m)) => {
                if *m > 0 {
                    let k = crate::rng::random_below(*m as u64);
                    Ok(Value::Number(NumberValue::Finite(k as i64)))
                } else {
                    Ok(Value::Undefined)
                }
            },
            _ => Ok(Value::Undefined),
        }
    } else {
        Ok(Value::Undefined)
    }
}

/// What `isNaN` returns: whether the first argument coerces to
/// not-a-number, and `true` when there is no argument.
pub open spec fn is_nan_post(args: Seq<Value>, r: Result<Value, Error>) -> bool {
    if args.len() > 0 {
        r == Ok::<Value, Error>(
            Value::Bool(spec_coerce_to_number(args[0]) is NotANumber),
        )
    } else {
        r == Ok::<Value, Error>(Value::Bool(true))
    }
}

/// The global `isNaN` function.
pub fn is_nan(context: &mut UpdateContext, args: &Vec<Value>) -> (r: Result<Value, Error>)
    ensures
        *final(context) == *old(context),
        is_nan_post(args@, r),
{
    if args.len() > 0 {
        let n = crate::value::coerce_to_number(&args[0]);
        Ok(Value::Bool(matches!(n, NumberValue::NotANumber)))
    } else {
        Ok(Value::Bool(true))
    }
}

/// What the `Infinity` getter returns: the positive infinity for format
/// versions that know it, `Undefined` for older movies.
pub open spec fn get_infinity_post(swf_version: u32, r: Result<Value, Error>) -> bool {
    if swf_version > 4 {
        r == Ok::<Value, Error>(Value::Number(NumberValue::PositiveInfinity))
    } else {
        r == Ok::<Value, Error>(Value::Undefined)
    }
}

/// The getter behind the global `Infinity` property.
pub fn get_infinity(context: &mut UpdateContext, args: &Vec<Value>) -> (r: Result<Value, Error>)
    ensures
        *final(context) == *old(context),
        get_infinity_post(old(context).swf_version, r),
{
    let _ = args;
    if context.swf_version > 4 {
        Ok(Value::Number(NumberValue::PositiveInfinity))
    } else {
        Ok(Value::Undefined)
    }
}

/// What the `NaN` getter returns: not-a-number for format versions that
/// know it, `Undefined` for older movies.
pub open spec fn get_nan_post(swf_version: u32, r: Result<Value, Error>) -> bool {
    if swf_version > 4 {
        r == Ok::<Value, Error>(Value::Number(NumberValue::NotANumber))
    } else {
        r == Ok::<Value, Error>(Value::Undefined)
    }
}

/// The getter behind the global `NaN` property.
pub fn get_nan(context: &mut UpdateContext, args: &Vec<Value>) -> (r: Result<Value, Error>)
    ensures
        *final(context) == *old(context),
        get_nan_post(old(context).swf_version, r),
{
    let _ = args;
    if context.swf_version > 4 {
        Ok(Value::Number(NumberValue::NotANumber))
    } else {
        Ok(Value::Undefined)
    }
}

/// What `setInterval` / `setTimeout` do. The first argument picks the
/// callback: a callable object is the callback itself and the interval
/// follows at position one; any other object names a method (position one)
/// with the interval at position two; anything else schedules nothing. A
/// missing or `Undefined` interval argument schedules nothing. The
/// remaining arguments become the callback's parameters, a timer is
/// scheduled, and its id is returned as a number.
pub open spec fn create_timer_post(
    arena: Arena,
    old_ctx: UpdateContext,
    new_ctx: UpdateContext,
    args: Seq<Value>,
    is_timeout: bool,
    r: Result<Value, Error>,
) -> bool {
    if args.len() == 0 || !(args[0] is Object) {
        r == Ok::<Value, Error>(Value::Undefined) && new_ctx == old_ctx
    } else {
        let o = args[0]->Object_0;
        let is_fn = arena.objects@[o as int].executable is Some;
        let i: int = if is_fn {
            1
        } else {
            2
        };
        if args.len() <= i || args[i] is Undefined {
            r == Ok::<Value, Error>(Value::Undefined) && new_ctx == old_ctx
        } else {
            let interval = spec_coerce_to_i32(args[i]);
            let params = args.subrange(i + 1, args.len() as int);
            let name_arg = if args.len() > 1 {
                args[1]
            } else {
                Value::Undefined
            };
            &&& new_ctx.needs_render == old_ctx.needs_render
            &&& new_ctx.swf_version == old_ctx.swf_version
            &&& new_ctx.timers.next_id == spec_next_timer_id(old_ctx.timers.next_id)
            &&& new_ctx.timers.timers@.len() == old_ctx.timers.timers@.len() + 1
            &&& forall|j: int|
                0 <= j < old_ctx.timers.timers@.len() ==> new_ctx.timers.timers@[j] == old_ctx
                    .timers.timers@[j]
            &&& {
                let t = new_ctx.timers.timers@.last();
                &&& t.id == old_ctx.timers.next_id
                &&& t.interval == interval
                &&& t.is_timeout == is_timeout
                &&& values_eq(t.params@, params)
                &&& if is_fn {
                    t.callback matches TimerCallback::Function(f) && f == o
                } else {
                    t.callback matches TimerCallback::Method { this, method_name } && this == o
                        && method_name@ == spec_coerce_to_string(name_arg)
                }
            }
            &&& r == Ok::<Value, Error>(
                Value::Number(NumberValue::Finite(old_ctx.timers.next_id as i64)),
            )
        }
    }
}

/// Schedule a timer: the engine behind `setInterval` and `setTimeout`.
pub fn create_timer(
    arena: &Arena,
    context: &mut UpdateContext,
    args: &Vec<Value>,
    is_timeout: bool,
) -> (r: Result<Value, Error>)
    requires
        arena.wf(),
        values_ok(args@, arena.objects@.len() as nat),
    ensures
        create_timer_post(*arena, *old(context), *final(context), args@, is_timeout, r),
{
    let (callback, i): (TimerCallback, usize) = if args.len() == 0 {
        return Ok(Value::Undefined);
    } else {
        match &args[0] {
            Value::Object(o) => {
                if arena.objects[*o].executable.is_some() {
                    (TimerCallback::Function(*o), 1)
                } else {
                    let name_arg: Vec<u8> = if args.len() > 1 {
                        crate::value::coerce_to_string(&args[1])
                    } else {
                        crate::value::coerce_to_string(&Value::Undefined)
                    };
                    (TimerCallback::Method { this: *o, method_name: name_arg }, 2)
                }
            },
            _ => {
                return Ok(Value::Undefined);
            },
        }
    };
    if args.len() <= i {
        return Ok(Value::Undefined);
    }
    let interval: i32 = match &args[i] {
        Value::Undefined => {
            return Ok(Value::Undefined);
        },
        v => crate::value::coerce_to_i32(v),
    };
    let mut params: Vec<Value> = Vec::new();
    let mut k: usize = i + 1;
    while k < args.len()
        invariant
            i + 1 <= k <= args@.len(),
            params@.len() == k - i - 1,
            forall|j: int|
                0 <= j < params@.len() ==> crate::value::value_eq(
                    #[trigger] params@[j],
                    args@[i + 1 + j],
                ),
        decreases args@.len() - k,
    {
        params.push(crate::value::value_clone(&args[k]));
        k += 1;
    }
    let id = context.timers.add_timer(callback, interval, params, is_timeout);
    Ok(Value::Number(NumberValue::Finite(id as i64)))
}

/// The global `setInterval` function: schedule a repeating timer.
pub fn set_interval(arena: &Arena, context: &mut UpdateContext, args: &Vec<Value>) -> (r: Result<
    Value,
    Error,
>)
    requires
        arena.wf(),
        values_ok(args@, arena.objects@.len() as nat),
    ensures
        create_timer_post(*arena, *old(context), *final(context), args@, false, r),
{
    create_timer(arena, context, args, false)
}

/// The global `setTimeout` function: schedule a one-shot timer.
pub fn set_timeout(arena: &Arena, context: &mut UpdateContext, args: &Vec<Value>) -> (r: Result<
    Value,
    Error,
>)
    requires
        arena.wf(),
        values_ok(args@, arena.objects@.len() as nat),
    ensures
        create_timer_post(*arena, *old(context), *final(context), args@, true, r),
{
    create_timer(arena, context, args, true)
}

/// What `clearInterval` does: coerce the argument to an id, drop the first
/// timer scheduled under it if any, and return `Undefined` either way.
pub open spec fn clear_interval_post(
    old_ctx: UpdateContext,
    new_ctx: UpdateContext,
    args: Seq<Value>,
    r: Result<Value, Error>,
) -> bool {
    let id = spec_coerce_to_i32(
        if args.len() > 0 {
            args[0]
        } else {
            Value::Undefined
        },
    );
    &&& r == Ok::<Value, Error>(Value::Undefined)
    &&& new_ctx.needs_render == old_ctx.needs_render
    &&& new_ctx.swf_version == old_ctx.swf_version
    &&& new_ctx.timers.next_id == old_ctx.timers.next_id
    &&& (match spec_timer_index(old_ctx.timers.timers@, id) {
        Some(i) => new_ctx.timers.timers@ == old_ctx.timers.timers@.remove(i),
        None => new_ctx.timers.timers@ == old_ctx.timers.timers@,
    })
}

/// The global `clearInterval` function.
pub fn clear_interval(context: &mut UpdateContext, args: &Vec<Value>) -> (r: Result<Value, Error>)
    ensures
        clear_interval_post(*old(context), *final(context), args@, r),
{
    let id: i32 = if args.len() > 0 {
        crate::value::coerce_to_i32(&args[0])
    } else {
        crate::value::coerce_to_i32(&Value::Undefined)
    };
    let _removed = context.timers.remove(id);
    Ok(Value::Undefined)
}

/// What `updateAfterEvent` does: raise the render flag and return
/// `Undefined`.
pub open spec fn update_after_event_post(
    old_ctx: UpdateContext,
    new_ctx: UpdateContext,
    r: Result<Value, Error>,
) -> bool {
    &&& r == Ok::<Value, Error>(Value::Undefined)
    &&& new_ctx.needs_render
    &&& new_ctx.timers == old_ctx.timers
    &&& new_ctx.swf_version == old_ctx.swf_version
}

/// The global `updateAfterEvent` function: ask the host for an immediate
/// redraw.
pub fn update_after_event(context: &mut UpdateContext, args: &Vec<Value>) -> (r: Result<
    Value,
    Error,
>)
    ensures
        update_after_event_post(*old(context), *final(context), r),
{
    let _ = args;
    context.needs_render = true;
    Ok(Value::Undefined)
}

} // verus!
