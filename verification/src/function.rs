//! Executables and function objects: the unified call-target abstraction,
//! receiver binding, and the class-derivation protocol.

use crate::arena::Arena;
use crate::class::Trait;
use crate::error::Error;
use crate::globals::UpdateContext;
use crate::method::BytecodeMethod;
use crate::method::Method;
use crate::method::NativeMethod;
use crate::names::Namespace;
use crate::names::QName;
use crate::object::Attributes;
use crate::object::Property;
use crate::object::ScriptObjectClass;
use crate::object::ScriptObjectData;
use crate::object::spec_find_prop;
use crate::value::NumberValue;
use crate::value::Value;
use crate::value::value_eq;
use crate::value::value_ok;
use crate::value::values_ok;
use vstd::prelude::*;

verus! {

/// A bytecode method bound to the scope it closed over and, optionally, to a
/// fixed receiver.
#[derive(Clone, Copy, Debug, PartialEq, Eq, Structural)]
pub struct BytecodeExecutable {
    /// The method code to execute from a loaded bytecode file.
    pub method: BytecodeMethod,
    /// The scope stack to pull variables from.
    pub scope: Option<usize>,
    /// The receiver this function is always called with. `None` means the
    /// receiver supplied by the caller is used; `Some` marks a bound
    /// executable.
    pub receiver: Option<usize>,
}

/// Code that can be executed by some means: native host code or an entry
/// into loaded bytecode.
#[derive(Clone, Copy, Debug, PartialEq, Eq, Structural)]
pub enum Executable {
    /// Host-native code. The second field is the bound receiver, if any.
    Native(NativeMethod, Option<usize>),
    /// Code defined in a loaded bytecode file.
    Action(BytecodeExecutable),
}

/// The activation record an executable hands to the interpreter loop when
/// its body is bytecode: everything the loop needs to run the method to
/// completion.
#[derive(Clone, Debug)]
pub struct Activation {
    pub method: BytecodeMethod,
    pub scope: Option<usize>,
    pub receiver: Option<usize>,
    pub arguments: Vec<Value>,
    pub base_proto: Option<usize>,
}

/// What invoking an executable produced: a finished value, when the body was
/// native, or an activation record the external interpreter loop must run,
/// when the body is bytecode.
#[derive(Clone, Debug)]
pub enum ExecOutcome {
    /// The call completed and returned this value.
    Done(Value),
    /// The call transfers control into the interpreter loop with this
    /// activation record; the loop's result is the call's result.
    RunBytecode(Activation),
}

/// An object that can be called to execute its function code: the base
/// trait/slot table, plus the executable — absent exactly on objects
/// produced by `construct` and `derive`, which are not callable.
#[derive(Clone, Debug)]
pub struct FunctionObjectData {
    /// Base script object data.
    pub base: crate::object::ScriptObjectData,
    /// Executable code, if the object is callable.
    pub executable: Option<Executable>,
}

/// A handle to a function object in the arena.
#[derive(Clone, Copy, Debug, PartialEq, Eq, Structural)]
pub struct FunctionObject(pub usize);

impl Executable {
    /// The receiver the executable was bound to at construction, if any.
    pub open spec fn bound_receiver(self) -> Option<usize> {
        match self {
            Executable::Native(_, receiver) => receiver,
            Executable::Action(be) => be.receiver,
        }
    }

    /// The receiver a call uses: the bound receiver if one was set at
    /// construction, else the receiver the caller supplied.
    pub open spec fn spec_effective_receiver(self, unbound: Option<usize>) -> Option<usize> {
        match self.bound_receiver() {
            Some(r) => Some(r),
            None => unbound,
        }
    }

    /// Convert a method into an executable, capturing `scope` and binding
    /// `receiver` once and for all: a bound executable can never be unbound
    /// later.
    pub fn from_method(method: Method, scope: Option<usize>, receiver: Option<usize>) -> (e:
        Executable)
        ensures
            e == Executable::spec_from_method(method, scope, receiver),
    {
        match method {
            Method::Native(nf) => Executable::Native(nf, receiver),
            Method::Entry(bm) => Executable::Action(
                BytecodeExecutable { method: bm, scope, receiver },
            ),
        }
    }

    /// What `from_method` builds.
    pub open spec fn spec_from_method(
        method: Method,
        scope: Option<usize>,
        receiver: Option<usize>,
    ) -> Executable {
        match method {
            Method::Native(nf) => Executable::Native(nf, receiver),
            Method::Entry(bm) => Executable::Action(
                BytecodeExecutable { method: bm, scope, receiver },
            ),
        }
    }

    /// Execute a method. A native body runs here, to completion; a bytecode
    /// body becomes an activation record for the external interpreter loop.
    /// Either way the effective receiver is the bound one if binding
    /// happened at construction, else the one supplied here.
    pub fn exec(
        &self,
        unbound_receiver: Option<usize>,
        arguments: Vec<Value>,
        arena: &Arena,
        context: &mut UpdateContext,
        base_proto: Option<usize>,
    ) -> (r: Result<ExecOutcome, Error>)
        requires
            arena.wf(),
            values_ok(arguments@, arena.objects@.len() as nat),
        ensures
            exec_post(
                *self,
                *arena,
                *old(context),
                *final(context),
                unbound_receiver,
                arguments@,
                base_proto,
                r,
            ),
    {
        match self {
            Executable::Native(nm, receiver) => {
                let rec: Option<usize> = match receiver {
                    Some(o) => Some(*o),
                    None => unbound_receiver,
                };
                match dispatch_native(*nm, arena, context, rec, &arguments) {
                    Ok(v) => Ok(ExecOutcome::Done(v)),
                    Err(e) => Err(e),
                }
            },
            Executable::Action(be) => {
                let rec: Option<usize> = match be.receiver {
                    Some(o) => Some(o),
                    None => unbound_receiver,
                };
                Ok(
                    ExecOutcome::RunBytecode(
                        Activation {
                            method: be.method,
                            scope: be.scope,
                            receiver: rec,
                            arguments,
                            base_proto,
                        },
                    ),
                )
            },
        }
    }
}

/// What dispatching a native method guarantees, by method.
pub open spec fn native_post(
    nm: NativeMethod,
    arena: Arena,
    old_ctx: UpdateContext,
    new_ctx: UpdateContext,
    receiver: Option<usize>,
    args: Seq<Value>,
    r: Result<Value, Error>,
) -> bool {
    match nm {
        NativeMethod::Random => new_ctx == old_ctx && crate::globals::random_post(args, r),
        NativeMethod::IsNan => new_ctx == old_ctx && crate::globals::is_nan_post(args, r),
        NativeMethod::GetInfinity => new_ctx == old_ctx && crate::globals::get_infinity_post(
            old_ctx.swf_version,
            r,
        ),
        NativeMethod::GetNan => new_ctx == old_ctx && crate::globals::get_nan_post(
            old_ctx.swf_version,
            r,
        ),
        NativeMethod::SetInterval => crate::globals::create_timer_post(
            arena,
            old_ctx,
            new_ctx,
            args,
            false,
            r,
        ),
        NativeMethod::SetTimeout => crate::globals::create_timer_post(
            arena,
            old_ctx,
            new_ctx,
            args,
            true,
            r,
        ),
        NativeMethod::ClearInterval => crate::globals::clear_interval_post(
            old_ctx,
            new_ctx,
            args,
            r,
        ),
        NativeMethod::UpdateAfterEvent => crate::globals::update_after_event_post(
            old_ctx,
            new_ctx,
            r,
        ),
        NativeMethod::ReturnThis => new_ctx == old_ctx && r == Ok::<Value, Error>(
            match receiver {
                Some(o) => Value::Object(o),
                None => Value::Undefined,
            },
        ),
        NativeMethod::ReturnArgumentCount => new_ctx == old_ctx && (match r {
            Ok(Value::Number(NumberValue::Finite(n))) => n == if args.len() <= i64::MAX {
                args.len() as int
            } else {
                i64::MAX as int
            },
            _ => false,
        }),
        NativeMethod::ReturnUndefined => new_ctx == old_ctx && r == Ok::<Value, Error>(
            Value::Undefined,
        ),
    }
}

/// Dispatch a native method: the closed `match` that stands in for the
/// host's function pointers.
pub fn dispatch_native(
    nm: NativeMethod,
    arena: &Arena,
    context: &mut UpdateContext,
    receiver: Option<usize>,
    args: &Vec<Value>,
) -> (r: Result<Value, Error>)
    requires
        arena.wf(),
        values_ok(args@, arena.objects@.len() as nat),
    ensures
        native_post(nm, *arena, *old(context), *final(context), receiver, args@, r),
{
    match nm {
        NativeMethod::Random => crate::globals::random(context, args),
        NativeMethod::IsNan => crate::globals::is_nan(context, args),
        NativeMethod::GetInfinity => crate::globals::get_infinity(context, args),
        NativeMethod::GetNan => crate::globals::get_nan(context, args),
        NativeMethod::SetInterval => crate::globals::set_interval(arena, context, args),
        NativeMethod::SetTimeout => crate::globals::set_timeout(arena, context, args),
        NativeMethod::ClearInterval => crate::globals::clear_interval(context, args),
        NativeMethod::UpdateAfterEvent => crate::globals::update_after_event(context, args),
        NativeMethod::ReturnThis => match receiver {
            Some(o) => Ok(Value::Object(o)),
            None => Ok(Value::Undefined),
        },
        NativeMethod::ReturnArgumentCount => {
            let n = args.len();
            if n as u64 <= i64::MAX as u64 {
                Ok(Value::Number(NumberValue::Finite(n as i64)))
            } else {
                Ok(Value::Number(NumberValue::Finite(i64::MAX)))
            }
        },
        NativeMethod::ReturnUndefined => Ok(Value::Undefined),
    }
}

/// What invoking an executable guarantees: a native body meets its native
/// contract on the effective receiver; a bytecode body becomes exactly the
/// activation record the interpreter loop needs, with the effective
/// receiver resolved by the binding rule.
pub open spec fn exec_post(
    e: Executable,
    arena: Arena,
    old_ctx: UpdateContext,
    new_ctx: UpdateContext,
    unbound: Option<usize>,
    args: Seq<Value>,
    base_proto: Option<usize>,
    r: Result<ExecOutcome, Error>,
) -> bool {
    match e {
        Executable::Native(nm, _) => match r {
            Ok(ExecOutcome::Done(v)) => native_post(
                nm,
                arena,
                old_ctx,
                new_ctx,
                e.spec_effective_receiver(unbound),
                args,
                Ok(v),
            ),
            Ok(ExecOutcome::RunBytecode(_)) => false,
            Err(err) => native_post(
                nm,
                arena,
                old_ctx,
                new_ctx,
                e.spec_effective_receiver(unbound),
                args,
                Err(err),
            ),
        },
        Executable::Action(be) => new_ctx == old_ctx && (match r {
            Ok(ExecOutcome::RunBytecode(act)) => act.method == be.method && act.scope == be.scope
                && act.receiver == e.spec_effective_receiver(unbound) && act.arguments@ == args
                && act.base_proto == base_proto,
            _ => false,
        }),
    }
}

/// How a write to one named property is about to be carried out.
enum WritePlan {
    /// Replace the stored value, keeping the flags.
    WriteStored(Attributes),
    /// Write the numbered slot.
    WriteSlot(usize, Attributes),
    /// Refuse: the member cannot be assigned.
    Refuse,
    /// Invoke the computed property's setter.
    CallSetter(Executable),
}

/// `new_arena` is `old_arena` with property `name` of object `self_id` now
/// being `p`, every other name of that object untouched, and everything
/// else identical.
pub open spec fn arena_prop_written(
    old_arena: Arena,
    new_arena: Arena,
    self_id: usize,
    name: QName,
    p: Property,
) -> bool {
    &&& new_arena.objects@.len() == old_arena.objects@.len()
    &&& new_arena.scopes == old_arena.scopes
    &&& new_arena.classes == old_arena.classes
    &&& forall|j: int|
        0 <= j < old_arena.objects@.len() && j != self_id ==> new_arena.objects@[j] == old_arena
            .objects@[j]
    &&& new_arena.objects@[self_id as int].executable == old_arena.objects@[
        self_id as int
    ].executable
    &&& new_arena.objects@[self_id as int].base.proto == old_arena.objects@[
        self_id as int
    ].base.proto
    &&& new_arena.objects@[self_id as int].base.class == old_arena.objects@[
        self_id as int
    ].base.class
    &&& new_arena.objects@[self_id as int].base.slots == old_arena.objects@[
        self_id as int
    ].base.slots
    &&& new_arena.objects@[self_id as int].base.methods == old_arena.objects@[
        self_id as int
    ].base.methods
    &&& new_arena.objects@[self_id as int].base.interfaces == old_arena.objects@[
        self_id as int
    ].base.interfaces
    &&& new_arena.objects@[self_id as int].base.extensible == old_arena.objects@[
        self_id as int
    ].base.extensible
    &&& spec_find_prop(new_arena.objects@[self_id as int].base.properties@, name) == Some(p)
    &&& forall|other: QName|
        !other.spec_eq(name) && !name.spec_eq(other) ==> #[trigger] spec_find_prop(
            new_arena.objects@[self_id as int].base.properties@,
            other,
        ) == spec_find_prop(old_arena.objects@[self_id as int].base.properties@, other)
}

/// `new_arena` is `old_arena` with slot `slot_id` of object `self_id` now
/// holding `value`, and everything else identical.
pub open spec fn arena_slot_written(
    old_arena: Arena,
    new_arena: Arena,
    self_id: usize,
    slot_id: usize,
    value: Value,
) -> bool {
    &&& new_arena.objects@.len() == old_arena.objects@.len()
    &&& new_arena.scopes == old_arena.scopes
    &&& new_arena.classes == old_arena.classes
    &&& forall|j: int|
        0 <= j < old_arena.objects@.len() && j != self_id ==> new_arena.objects@[j] == old_arena
            .objects@[j]
    &&& new_arena.objects@[self_id as int].executable == old_arena.objects@[
        self_id as int
    ].executable
    &&& new_arena.objects@[self_id as int].base.proto == old_arena.objects@[
        self_id as int
    ].base.proto
    &&& new_arena.objects@[self_id as int].base.class == old_arena.objects@[
        self_id as int
    ].base.class
    &&& new_arena.objects@[self_id as int].base.properties == old_arena.objects@[
        self_id as int
    ].base.properties
    &&& new_arena.objects@[self_id as int].base.methods == old_arena.objects@[
        self_id as int
    ].base.methods
    &&& new_arena.objects@[self_id as int].base.interfaces == old_arena.objects@[
        self_id as int
    ].base.interfaces
    &&& new_arena.objects@[self_id as int].base.extensible == old_arena.objects@[
        self_id as int
    ].base.extensible
    &&& new_arena.objects@[self_id as int].base.slots@ == old_arena.objects@[
        self_id as int
    ].base.slots@.update(slot_id as int, value)
}

/// What reading the own property `name` yields: a stored value, the value
/// in the named slot, the installed method as a function value, the outcome
/// of invoking the getter for a computed property, and `Undefined` for an
/// absent name or a getterless computed property.
pub open spec fn get_local_post(
    arena: Arena,
    self_id: usize,
    old_ctx: UpdateContext,
    new_ctx: UpdateContext,
    name: QName,
    r: Result<ExecOutcome, Error>,
) -> bool {
    let d = arena.objects@[self_id as int];
    match spec_find_prop(d.base.properties@, name) {
        Some(Property::Stored { value, .. }) => new_ctx == old_ctx && (match r {
            Ok(ExecOutcome::Done(v)) => value_eq(v, value),
            _ => false,
        }),
        Some(Property::Slot { slot_id, .. }) => new_ctx == old_ctx && (match r {
            Ok(ExecOutcome::Done(v)) => value_eq(v, d.base.slots@[slot_id as int]),
            _ => false,
        }),
        Some(Property::Method { func, .. }) => new_ctx == old_ctx && (match r {
            Ok(ExecOutcome::Done(v)) => v == Value::Object(func),
            _ => false,
        }),
        Some(Property::Virtual { getter: Some(g), .. }) => exec_post(
            g,
            arena,
            old_ctx,
            new_ctx,
            Some(self_id),
            Seq::empty(),
            None,
            r,
        ),
        Some(Property::Virtual { getter: None, .. }) => new_ctx == old_ctx && (match r {
            Ok(ExecOutcome::Done(v)) => v is Undefined,
            _ => false,
        }),
        None => new_ctx == old_ctx && (match r {
            Ok(ExecOutcome::Done(v)) => v is Undefined,
            _ => false,
        }),
    }
}

/// What writing the own property `name` does. The general assignment path
/// (`respect_flags`) refuses members that are not overwritable; the
/// construction path writes them anyway. An absent name becomes a fresh
/// dynamic property, unless the object accepts no new ones. A computed
/// property runs its setter, and refuses when it has none. Installed
/// methods are never assignable.
pub open spec fn write_local_post(
    old_arena: Arena,
    new_arena: Arena,
    self_id: usize,
    old_ctx: UpdateContext,
    new_ctx: UpdateContext,
    name: QName,
    value: Value,
    respect_flags: bool,
    r: Result<ExecOutcome, Error>,
) -> bool {
    let d = old_arena.objects@[self_id as int];
    match spec_find_prop(d.base.properties@, name) {
        Some(Property::Stored { attributes, .. }) => if respect_flags && !attributes.overwritable {
            new_arena == old_arena && new_ctx == old_ctx && (r matches Err(
                Error::PropertyNotOverwritable,
            ))
        } else {
            new_ctx == old_ctx && (match r {
                Ok(ExecOutcome::Done(v)) => v is Undefined,
                _ => false,
            }) && arena_prop_written(
                old_arena,
                new_arena,
                self_id,
                name,
                Property::Stored { value, attributes },
            )
        },
        Some(Property::Slot { slot_id, attributes }) => if respect_flags
            && !attributes.overwritable {
            new_arena == old_arena && new_ctx == old_ctx && (r matches Err(
                Error::PropertyNotOverwritable,
            ))
        } else {
            new_ctx == old_ctx && (match r {
                Ok(ExecOutcome::Done(v)) => v is Undefined,
                _ => false,
            }) && arena_slot_written(old_arena, new_arena, self_id, slot_id, value)
        },
        Some(Property::Method { .. }) => new_arena == old_arena && new_ctx == old_ctx && (r matches
            Err(Error::PropertyNotOverwritable)),
        Some(Property::Virtual { setter: Some(s), .. }) => new_arena == old_arena && exec_post(
            s,
            old_arena,
            old_ctx,
            new_ctx,
            Some(self_id),
            seq![value],
            None,
            r,
        ),
        Some(Property::Virtual { setter: None, .. }) => new_arena == old_arena && new_ctx == old_ctx
            && (r matches Err(Error::PropertyNotOverwritable)),
        None => if d.base.extensible {
            new_ctx == old_ctx && (match r {
                Ok(ExecOutcome::Done(v)) => v is Undefined,
                _ => false,
            }) && arena_prop_written(
                old_arena,
                new_arena,
                self_id,
                name,
                Property::Stored { value, attributes: Attributes::spec_dynamic() },
            )
        } else {
            new_arena == old_arena && new_ctx == old_ctx && (r matches Err(Error::ObjectSealed))
        },
    }
}

impl FunctionObject {
    /// Whether the handle points at an object of the arena.
    pub open spec fn spec_valid(self, arena: Arena) -> bool {
        self.0 < arena.objects@.len()
    }

    /// The object's data.
    pub open spec fn spec_data(self, arena: Arena) -> FunctionObjectData {
        arena.objects@[self.0 as int]
    }

    /// Construct a function from a bytecode or native method and the current
    /// closure scope. The given receiver, if supplied, overrides any
    /// caller-specified one from then on.
    pub fn from_method(
        arena: &mut Arena,
        method: Method,
        scope: Option<usize>,
        fn_proto: usize,
        receiver: Option<usize>,
    ) -> (id: usize)
        requires
            old(arena).wf(),
            fn_proto < old(arena).objects@.len(),
        ensures
            final(arena).wf(),
            id == old(arena).objects@.len(),
            final(arena).objects@.len() == old(arena).objects@.len() + 1,
            forall|j: int|
                0 <= j < old(arena).objects@.len() ==> final(arena).objects@[j] == old(
                    arena,
                ).objects@[j],
            final(arena).scopes == old(arena).scopes,
            final(arena).classes == old(arena).classes,
            final(arena).objects@[id as int].base.proto == Some(fn_proto),
            final(arena).objects@[id as int].base.class == ScriptObjectClass::NoClass,
            final(arena).objects@[id as int].base.properties@.len() == 0,
            final(arena).objects@[id as int].base.interfaces@.len() == 0,
            final(arena).objects@[id as int].base.extensible,
            final(arena).objects@[id as int].executable == Some(
                Executable::spec_from_method(method, scope, receiver),
            ),
    {
        let d = FunctionObjectData {
            base: ScriptObjectData::base_new(Some(fn_proto), ScriptObjectClass::NoClass),
            executable: Some(Executable::from_method(method, scope, receiver)),
        };
        arena.push_object(d)
    }

    /// Construct a builtin function object from a host-native method, with
    /// no captured scope and no bound receiver.
    pub fn from_builtin(arena: &mut Arena, nf: NativeMethod, fn_proto: usize) -> (id: usize)
        requires
            old(arena).wf(),
            fn_proto < old(arena).objects@.len(),
        ensures
            final(arena).wf(),
            id == old(arena).objects@.len(),
            final(arena).objects@.len() == old(arena).objects@.len() + 1,
            forall|j: int|
                0 <= j < old(arena).objects@.len() ==> final(arena).objects@[j] == old(
                    arena,
                ).objects@[j],
            final(arena).scopes == old(arena).scopes,
            final(arena).classes == old(arena).classes,
            final(arena).objects@[id as int].base.proto == Some(fn_proto),
            final(arena).objects@[id as int].base.class == ScriptObjectClass::NoClass,
            final(arena).objects@[id as int].base.properties@.len() == 0,
            final(arena).objects@[id as int].base.extensible,
            final(arena).objects@[id as int].executable == Some(
                Executable::Native(nf, None),
            ),
    {
        FunctionObject::from_method(arena, Method::Native(nf), None, fn_proto, None)
    }

    /// Construct a builtin type from a host-native constructor and a
    /// caller-supplied prototype object, installing the mutual `prototype` /
    /// `constructor` back-link between the two. Fails, building nothing,
    /// when the prototype object accepts no new properties.
    pub fn from_builtin_constr(
        arena: &mut Arena,
        constr: NativeMethod,
        prototype: usize,
        fn_proto: usize,
    ) -> (r: Result<usize, Error>)
        requires
            old(arena).wf(),
            prototype < old(arena).objects@.len(),
            fn_proto < old(arena).objects@.len(),
        ensures
            final(arena).wf(),
            final(arena).scopes == old(arena).scopes,
            final(arena).classes == old(arena).classes,
            forall|j: int|
                0 <= j < old(arena).objects@.len() && j != prototype ==> final(arena).objects@[j]
                    == old(arena).objects@[j],
            old(arena).objects@[prototype as int].base.extensible <==> r is Ok,
            match r {
                Ok(id) => {
                    &&& id == old(arena).objects@.len()
                    &&& final(arena).objects@.len() == old(arena).objects@.len() + 1
                    &&& final(arena).objects@[id as int].base.proto == Some(fn_proto)
                    &&& final(arena).objects@[id as int].base.class == ScriptObjectClass::NoClass
                    &&& final(arena).objects@[id as int].executable == Some(
                        Executable::Native(constr, None),
                    )
                    &&& (forall|q: QName|
                        crate::names::is_prototype_qname(q) ==> #[trigger] spec_find_prop(
                            final(arena).objects@[id as int].base.properties@,
                            q,
                        ) == Some(
                            Property::Stored {
                                value: Value::Object(prototype),
                                attributes: Attributes::spec_dynamic(),
                            },
                        ))
                    &&& (forall|q: QName|
                        crate::names::is_constructor_qname(q) ==> #[trigger] spec_find_prop(
                            final(arena).objects@[prototype as int].base.properties@,
                            q,
                        ) == Some(
                            Property::Stored {
                                value: Value::Object(id),
                                attributes: Attributes::spec_dynamic(),
                            },
                        ))
                    &&& final(arena).objects@[prototype as int].base.proto == old(
                        arena,
                    ).objects@[prototype as int].base.proto
                    &&& final(arena).objects@[prototype as int].base.class == old(
                        arena,
                    ).objects@[prototype as int].base.class
                    &&& final(arena).objects@[prototype as int].executable == old(
                        arena,
                    ).objects@[prototype as int].executable
                    &&& (forall|other: QName|
                        !crate::names::is_prototype_qname(other) && !crate::names::is_constructor_qname(
                            other,
                        ) ==> #[trigger] spec_find_prop(
                            final(arena).objects@[prototype as int].base.properties@,
                            other,
                        ) == spec_find_prop(
                            old(arena).objects@[prototype as int].base.properties@,
                            other,
                        ))
                },
                Err(e) => e matches Error::ObjectSealed && *final(arena) == *old(arena),
            },
    {
        proof {
            assert(arena.obj_wf(prototype as int));
        }
        if !arena.objects[prototype].base.extensible {
            return Err(Error::ObjectSealed);
        }
        let base = arena.push_object(
            FunctionObjectData {
                base: ScriptObjectData::base_new(Some(fn_proto), ScriptObjectClass::NoClass),
                executable: Some(Executable::Native(constr, None)),
            },
        );
        let proto_q = crate::names::prototype_qname();
        let ghost pq = proto_q;
        let r1 = FunctionObject(base).install_dynamic_property(
            arena,
            &proto_q,
            Value::Object(prototype),
        );
        match r1 {
            Ok(_) => {},
            Err(e) => {
                return Err(e);
            },
        }
        let constructor_q = crate::names::constructor_qname();
        let ghost cq = constructor_q;
        let r2 = FunctionObject(prototype).install_dynamic_property(
            arena,
            &constructor_q,
            Value::Object(base),
        );
        match r2 {
            Ok(_) => {},
            Err(e) => {
                return Err(e);
            },
        }
        proof {
            assert forall|q: QName| crate::names::is_prototype_qname(q) implies #[trigger]
                spec_find_prop(arena.objects@[base as int].base.properties@, q) == Some(
                Property::Stored {
                    value: Value::Object(prototype),
                    attributes: Attributes::spec_dynamic(),
                },
            ) by {
                crate::names::lemma_special_qnames(q, pq);
                crate::object::lemma_find_respects_eq(
                    arena.objects@[base as int].base.properties@,
                    q,
                    pq,
                );
            }
            assert forall|q: QName| crate::names::is_constructor_qname(q) implies #[trigger]
                spec_find_prop(arena.objects@[prototype as int].base.properties@, q) == Some(
                Property::Stored {
                    value: Value::Object(base),
                    attributes: Attributes::spec_dynamic(),
                },
            ) by {
                crate::names::lemma_special_qnames(q, cq);
                crate::object::lemma_find_respects_eq(
                    arena.objects@[prototype as int].base.properties@,
                    q,
                    cq,
                );
            }
            assert forall|other: QName|
                !crate::names::is_prototype_qname(other) && !crate::names::is_constructor_qname(
                    other,
                ) implies #[trigger] spec_find_prop(
                arena.objects@[prototype as int].base.properties@,
                other,
            ) == spec_find_prop(
                old(arena).objects@[prototype as int].base.properties@,
                other,
            ) by {
                crate::names::lemma_special_qnames(other, cq);
                if other.spec_eq(cq) || cq.spec_eq(other) {
                    crate::names::lemma_qname_eq_sym(other, cq);
                    assert(other.ns is Public && other.local@ == crate::names::constructor_name());
                    assert(false);
                }
            }
        }
        Ok(base)
    }

    /// The object's executable, if it carries one.
    pub fn as_executable(self, arena: &Arena) -> (r: Option<Executable>)
        requires
            self.spec_valid(*arena),
        ensures
            r == self.spec_data(*arena).executable,
    {
        arena.objects[self.0].executable
    }

    /// Call the object. An object that carries no executable — one produced
    /// by `construct` or `derive` — reports the not-callable error, whatever
    /// the arguments.
    pub fn call(
        self,
        arena: &Arena,
        context: &mut UpdateContext,
        receiver: Option<usize>,
        arguments: Vec<Value>,
        base_proto: Option<usize>,
    ) -> (r: Result<ExecOutcome, Error>)
        requires
            arena.wf(),
            self.spec_valid(*arena),
            values_ok(arguments@, arena.objects@.len() as nat),
        ensures
            self.spec_data(*arena).executable is None ==> (r matches Err(Error::NotCallable))
                && *final(context) == *old(context),
            (match self.spec_data(*arena).executable {
                Some(e) => exec_post(
                    e,
                    *arena,
                    *old(context),
                    *final(context),
                    receiver,
                    arguments@,
                    base_proto,
                    r,
                ),
                None => true,
            }),
    {
        let e = arena.objects[self.0].executable;
        match e {
            Some(e) => e.exec(receiver, arguments, arena, context, base_proto),
            None => Err(Error::NotCallable),
        }
    }

    /// Produce a brand-new plain instance whose prototype link is this
    /// object, with no executable and no class marker.
    pub fn construct(self, arena: &mut Arena, args: &Vec<Value>) -> (r: Result<usize, Error>)
        requires
            old(arena).wf(),
            self.spec_valid(*old(arena)),
        ensures
            final(arena).wf(),
            final(arena).scopes == old(arena).scopes,
            final(arena).classes == old(arena).classes,
            final(arena).objects@.len() == old(arena).objects@.len() + 1,
            forall|j: int|
                0 <= j < old(arena).objects@.len() ==> final(arena).objects@[j] == old(
                    arena,
                ).objects@[j],
            match r {
                Ok(id) => id == old(arena).objects@.len() && final(arena).objects@[
                    id as int
                ].base.proto == Some(self.0) && final(arena).objects@[id as int].base.class
                    == ScriptObjectClass::NoClass && final(arena).objects@[
                    id as int
                ].executable is None && final(arena).objects@[
                    id as int
                ].base.properties@.len() == 0 && final(arena).objects@[
                    id as int
                ].base.extensible,
                Err(_) => false,
            },
    {
        let _ = args;
        let d = FunctionObjectData {
            base: ScriptObjectData::base_new(Some(self.0), ScriptObjectClass::NoClass),
            executable: None,
        };
        Ok(arena.push_object(d))
    }

    /// Produce a brand-new object whose prototype link is this object, with
    /// no executable, marked as the instance prototype of `class` as defined
    /// in `scope` — the building block of class-aware prototype chains.
    pub fn derive(self, arena: &mut Arena, class: usize, scope: Option<usize>) -> (r: Result<
        usize,
        Error,
    >)
        requires
            old(arena).wf(),
            self.spec_valid(*old(arena)),
            class < old(arena).classes@.len(),
        ensures
            final(arena).wf(),
            final(arena).scopes == old(arena).scopes,
            final(arena).classes == old(arena).classes,
            final(arena).objects@.len() == old(arena).objects@.len() + 1,
            forall|j: int|
                0 <= j < old(arena).objects@.len() ==> final(arena).objects@[j] == old(
                    arena,
                ).objects@[j],
            match r {
                Ok(id) => id == old(arena).objects@.len() && final(arena).objects@[
                    id as int
                ].base.proto == Some(self.0) && final(arena).objects@[id as int].base.class
                    == ScriptObjectClass::InstancePrototype(class, scope) && final(arena).objects@[id as int].executable is None && final(arena).objects@[
                    id as int
                ].base.properties@.len() == 0 && final(arena).objects@[
                    id as int
                ].base.interfaces@.len() == 0 && final(arena).objects@[
                    id as int
                ].base.extensible,
                Err(_) => false,
            },
    {
        let d = FunctionObjectData {
            base: ScriptObjectData::base_new(
                Some(self.0),
                ScriptObjectClass::InstancePrototype(class, scope),
            ),
            executable: None,
        };
        Ok(arena.push_object(d))
    }

    /// Install a dynamic property. Fails, changing nothing, when the object
    /// accepts no new properties.
    pub fn install_dynamic_property(self, arena: &mut Arena, name: &QName, value: Value) -> (r:
        Result<(), Error>)
        requires
            old(arena).wf(),
            self.spec_valid(*old(arena)),
            value_ok(value, old(arena).objects@.len() as nat),
        ensures
            final(arena).wf(),
            old(arena).objects@[self.0 as int].base.extensible ==> r is Ok && arena_prop_written(
                *old(arena),
                *final(arena),
                self.0,
                *name,
                Property::Stored { value, attributes: Attributes::spec_dynamic() },
            ),
            !old(arena).objects@[self.0 as int].base.extensible ==> (r matches Err(
                Error::ObjectSealed,
            )) && *final(arena) == *old(arena),
    {
        proof {
            assert(arena.obj_wf(self.0 as int));
        }
        if !arena.objects[self.0].base.extensible {
            return Err(Error::ObjectSealed);
        }
        let ghost glen = arena.objects@.len() as nat;
        let nm = crate::names::qname_clone(name);
        let ghost nm_snap = nm;
        let d = &mut arena.objects[self.0];
        let r = d.base.install_dynamic_property(nm, value, Ghost(glen));
        proof {
            crate::arena::lemma_wf_update_object(*old(arena), *arena, self.0 as int);
            let props = arena.objects@[self.0 as int].base.properties@;
            crate::object::lemma_find_respects_eq(props, *name, nm_snap);
            assert forall|other: QName| !other.spec_eq(*name) && !name.spec_eq(other) implies
                #[trigger] spec_find_prop(props, other) == spec_find_prop(
                old(arena).objects@[self.0 as int].base.properties@,
                other,
            ) by {
                if other.spec_eq(nm_snap) {
                    crate::names::lemma_qname_eq_trans(other, nm_snap, *name);
                }
                if nm_snap.spec_eq(other) {
                    crate::names::lemma_qname_eq_trans(*name, nm_snap, other);
                }
            }
        }
        r
    }

    /// Read the own property `name`, resolving a computed property through
    /// the invocation path.
    pub fn get_property_local(self, arena: &Arena, context: &mut UpdateContext, name: &QName) -> (r:
        Result<ExecOutcome, Error>)
        requires
            arena.wf(),
            self.spec_valid(*arena),
        ensures
            get_local_post(*arena, self.0, *old(context), *final(context), *name, r),
    {
        proof {
            assert(arena.obj_wf(self.0 as int));
        }
        let d = &arena.objects[self.0];
        let idx = d.base.find_index(name);
        proof {
            crate::object::lemma_find_index_prop(d.base.properties@, *name);
        }
        match idx {
            Some(i) => match &d.base.properties[i].prop {
                Property::Stored { value, .. } => Ok(
                    ExecOutcome::Done(crate::value::value_clone(value)),
                ),
                Property::Slot { slot_id, .. } => Ok(
                    ExecOutcome::Done(crate::value::value_clone(&d.base.slots[*slot_id])),
                ),
                Property::Method { func, .. } => Ok(ExecOutcome::Done(Value::Object(*func))),
                Property::Virtual { getter: Some(g), .. } => {
                    let args: Vec<Value> = Vec::new();
                    g.exec(Some(self.0), args, arena, context, None)
                },
                Property::Virtual { getter: None, .. } => Ok(
                    ExecOutcome::Done(Value::Undefined),
                ),
            },
            None => Ok(ExecOutcome::Done(Value::Undefined)),
        }
    }

    /// Write the own property `name` through the general assignment path,
    /// which respects overwritability.
    pub fn set_property_local(
        self,
        arena: &mut Arena,
        context: &mut UpdateContext,
        name: &QName,
        value: Value,
    ) -> (r: Result<ExecOutcome, Error>)
        requires
            old(arena).wf(),
            self.spec_valid(*old(arena)),
            value_ok(value, old(arena).objects@.len() as nat),
        ensures
            final(arena).wf(),
            write_local_post(
                *old(arena),
                *final(arena),
                self.0,
                *old(context),
                *final(context),
                *name,
                value,
                true,
                r,
            ),
    {
        self.write_property_local(arena, context, name, value, true)
    }

    /// Write the own property `name` through the construction path, which
    /// populates declared — possibly non-overwritable — members exactly once
    /// while the object is being built.
    pub fn init_property_local(
        self,
        arena: &mut Arena,
        context: &mut UpdateContext,
        name: &QName,
        value: Value,
    ) -> (r: Result<ExecOutcome, Error>)
        requires
            old(arena).wf(),
            self.spec_valid(*old(arena)),
            value_ok(value, old(arena).objects@.len() as nat),
        ensures
            final(arena).wf(),
            write_local_post(
                *old(arena),
                *final(arena),
                self.0,
                *old(context),
                *final(context),
                *name,
                value,
                false,
                r,
            ),
    {
        self.write_property_local(arena, context, name, value, false)
    }

    /// The shared write path behind `set_property_local` and
    /// `init_property_local`.
    fn write_property_local(
        self,
        arena: &mut Arena,
        context: &mut UpdateContext,
        name: &QName,
        value: Value,
        respect_flags: bool,
    ) -> (r: Result<ExecOutcome, Error>)
        requires
            old(arena).wf(),
            self.spec_valid(*old(arena)),
            value_ok(value, old(arena).objects@.len() as nat),
        ensures
            final(arena).wf(),
            write_local_post(
                *old(arena),
                *final(arena),
                self.0,
                *old(context),
                *final(context),
                *name,
                value,
                respect_flags,
                r,
            ),
    {
        proof {
            assert(arena.obj_wf(self.0 as int));
        }
        let ghost glen = arena.objects@.len() as nat;
        let idx = arena.objects[self.0].base.find_index(name);
        proof {
            crate::object::lemma_find_index_prop(
                arena.objects@[self.0 as int].base.properties@,
                *name,
            );
        }
        let plan: WritePlan = match idx {
            Some(i) => match &arena.objects[self.0].base.properties[i].prop {
                Property::Stored { attributes, .. } => WritePlan::WriteStored(*attributes),
                Property::Slot { slot_id, attributes } => WritePlan::WriteSlot(
                    *slot_id,
                    *attributes,
                ),
                Property::Method { .. } => WritePlan::Refuse,
                Property::Virtual { setter: Some(s), .. } => WritePlan::CallSetter(*s),
                Property::Virtual { setter: None, .. } => WritePlan::Refuse,
            },
            None => {
                if !arena.objects[self.0].base.extensible {
                    return Err(Error::ObjectSealed);
                }
                let nm = crate::names::qname_clone(name);
                let ghost nm_snap = nm;
                let d = &mut arena.objects[self.0];
                let _ = d.base.install_dynamic_property(nm, value, Ghost(glen));
                proof {
                    crate::arena::lemma_wf_update_object(*old(arena), *arena, self.0 as int);
                    let props = arena.objects@[self.0 as int].base.properties@;
                    crate::object::lemma_find_respects_eq(props, *name, nm_snap);
                    assert forall|other: QName| !other.spec_eq(*name) && !name.spec_eq(other)
                        implies #[trigger] spec_find_prop(props, other) == spec_find_prop(
                        old(arena).objects@[self.0 as int].base.properties@,
                        other,
                    ) by {
                        if other.spec_eq(nm_snap) {
                            crate::names::lemma_qname_eq_trans(other, nm_snap, *name);
                        }
                        if nm_snap.spec_eq(other) {
                            crate::names::lemma_qname_eq_trans(*name, nm_snap, other);
                        }
                    }
                }
                return Ok(ExecOutcome::Done(Value::Undefined));
            },
        };
        match plan {
            WritePlan::WriteStored(attributes) => {
                if respect_flags && !attributes.overwritable {
                    Err(Error::PropertyNotOverwritable)
                } else {
                    let nm = crate::names::qname_clone(name);
                    let ghost nm_snap = nm;
                    let d = &mut arena.objects[self.0];
                    d.base.define_property(
                        nm,
                        Property::Stored { value, attributes },
                        Ghost(glen),
                    );
                    proof {
                        crate::arena::lemma_wf_update_object(*old(arena), *arena, self.0 as int);
                        let props = arena.objects@[self.0 as int].base.properties@;
                        crate::object::lemma_find_respects_eq(props, *name, nm_snap);
                        assert forall|other: QName| !other.spec_eq(*name) && !name.spec_eq(other)
                            implies #[trigger] spec_find_prop(props, other) == spec_find_prop(
                            old(arena).objects@[self.0 as int].base.properties@,
                            other,
                        ) by {
                            if other.spec_eq(nm_snap) {
                                crate::names::lemma_qname_eq_trans(other, nm_snap, *name);
                            }
                            if nm_snap.spec_eq(other) {
                                crate::names::lemma_qname_eq_trans(*name, nm_snap, other);
                            }
                        }
                    }
                    Ok(ExecOutcome::Done(Value::Undefined))
                }
            },
            WritePlan::WriteSlot(slot_id, attributes) => {
                if respect_flags && !attributes.overwritable {
                    Err(Error::PropertyNotOverwritable)
                } else {
                    let d = &mut arena.objects[self.0];
                    let _ = d.base.set_slot(slot_id, value, Ghost(glen));
                    proof {
                        crate::arena::lemma_wf_update_object(*old(arena), *arena, self.0 as int);
                    }
                    Ok(ExecOutcome::Done(Value::Undefined))
                }
            },
            WritePlan::Refuse => Err(Error::PropertyNotOverwritable),
            WritePlan::CallSetter(s) => {
                let mut args: Vec<Value> = Vec::new();
                args.push(value);
                s.exec(Some(self.0), args, arena, context, None)
            },
        }
    }
}

/// The prototype of the interface that `name` resolves to in scope `sc`:
/// the name must resolve to an object whose `prototype`-named property
/// (`q`) is an object. `None` marks a failed resolution.
pub open spec fn spec_iface_proto(arena: Arena, sc: int, name: QName, q: QName) -> Option<usize> {
    match arena.spec_resolve(sc, name) {
        Some(Value::Object(io)) => match arena.spec_get_property(io as int, q) {
            Some(Value::Object(ip)) => Some(ip),
            _ => None,
        },
        _ => None,
    }
}

/// The object that the `prototype`-named property (`q`) of the base class
/// `b` resolves to; `None` marks a failed resolution.
pub open spec fn spec_base_proto(arena: Arena, b: usize, q: QName) -> Option<usize> {
    match arena.spec_get_property(b as int, q) {
        Some(Value::Object(p)) => Some(p),
        _ => None,
    }
}

/// Whether some interface declared on `class` fails to resolve. Without a
/// defining scope no resolution is attempted, so nothing fails and the
/// class gets zero interfaces.
pub open spec fn spec_ifaces_fail(
    arena: Arena,
    class: usize,
    scope: Option<usize>,
    q: QName,
) -> bool {
    match scope {
        Some(sc) => exists|k: int|
            0 <= k < arena.classes@[class as int].interfaces@.len() && spec_iface_proto(
                arena,
                sc as int,
                arena.classes@[class as int].interfaces@[k],
                q,
            ) is None,
        None => false,
    }
}

/// Everything `from_class` promises, stated against any `prototype`-named
/// name `q`: which derivations fail and with which error, and, on success,
/// the three objects built, the mutual `prototype` / `constructor` links,
/// and the interface list in declaration order.
pub open spec fn from_class_case(
    old_a: Arena,
    new_a: Arena,
    class: usize,
    base_class: Option<usize>,
    scope: Option<usize>,
    fn_proto: usize,
    class_constr_proto: usize,
    q: QName,
    r: Result<(usize, usize), Error>,
) -> bool {
    let fail_base = match base_class {
        Some(b) => spec_base_proto(old_a, b, q) is None,
        None => false,
    };
    let fail_iface = spec_ifaces_fail(old_a, class, scope, q);
    if fail_base {
        r matches Err(Error::UnresolvedSuperclassPrototype)
    } else if fail_iface {
        r matches Err(Error::UnresolvedInterface(_))
    } else {
        match r {
            Ok((c, ci)) => {
                let p = old_a.objects@.len() as int;
                &&& c == p + 1
                &&& ci == p + 2
                &&& new_a.objects@.len() == p + 3
                &&& (match base_class {
                    Some(b) => new_a.objects@[p].base.proto == spec_base_proto(old_a, b, q)
                        && new_a.objects@[p].base.class
                        == ScriptObjectClass::InstancePrototype(class, scope),
                    None => new_a.objects@[p].base.proto is None && new_a.objects@[p].base.class
                        == ScriptObjectClass::NoClass,
                })
                &&& new_a.objects@[p].executable is None
                &&& (match scope {
                    Some(sc) => new_a.objects@[p].base.interfaces@.len() == old_a.classes@[
                        class as int
                    ].interfaces@.len() && (forall|k: int|
                        0 <= k < old_a.classes@[class as int].interfaces@.len() ==> Some(
                            new_a.objects@[p].base.interfaces@[k],
                        ) == spec_iface_proto(
                            old_a,
                            sc as int,
                            old_a.classes@[class as int].interfaces@[k],
                            q,
                        )),
                    None => new_a.objects@[p].base.interfaces@.len() == 0,
                })
                &&& new_a.objects@[c as int].base.proto == Some(fn_proto)
                &&& new_a.objects@[c as int].base.class == ScriptObjectClass::ClassConstructor(
                    class,
                    scope,
                )
                &&& new_a.objects@[c as int].executable == Some(
                    Executable::spec_from_method(
                        old_a.classes@[class as int].instance_init,
                        scope,
                        None,
                    ),
                )
                &&& spec_find_prop(new_a.objects@[c as int].base.properties@, q) == Some(
                    Property::Stored {
                        value: Value::Object(p as usize),
                        attributes: Attributes::spec_dynamic(),
                    },
                )
                &&& (forall|q2: QName|
                    crate::names::is_constructor_qname(q2) ==> #[trigger] spec_find_prop(
                        new_a.objects@[p].base.properties@,
                        q2,
                    ) == Some(
                        Property::Stored {
                            value: Value::Object(c),
                            attributes: Attributes::spec_dynamic(),
                        },
                    ))
                &&& new_a.objects@[ci as int].base.proto == Some(class_constr_proto)
                &&& new_a.objects@[ci as int].base.class == ScriptObjectClass::NoClass
                &&& new_a.objects@[ci as int].executable == Some(
                    Executable::spec_from_method(
                        old_a.classes@[class as int].class_init,
                        scope,
                        None,
                    ),
                )
            },
            Err(_) => false,
        }
    }
}

impl FunctionObject {
    /// Replace the interface list attached to the object. Derivation calls
    /// this once, after every declared interface resolved.
    pub fn set_interfaces(self, arena: &mut Arena, iface_list: Vec<usize>)
        requires
            old(arena).wf(),
            self.spec_valid(*old(arena)),
        ensures
            final(arena).wf(),
            final(arena).objects@.len() == old(arena).objects@.len(),
            final(arena).scopes == old(arena).scopes,
            final(arena).classes == old(arena).classes,
            forall|j: int|
                0 <= j < old(arena).objects@.len() && j != self.0 ==> final(arena).objects@[j]
                    == old(arena).objects@[j],
            final(arena).objects@[self.0 as int].base.interfaces == iface_list,
            final(arena).objects@[self.0 as int].base.properties == old(arena).objects@[
                self.0 as int
            ].base.properties,
            final(arena).objects@[self.0 as int].base.slots == old(arena).objects@[
                self.0 as int
            ].base.slots,
            final(arena).objects@[self.0 as int].base.methods == old(arena).objects@[
                self.0 as int
            ].base.methods,
            final(arena).objects@[self.0 as int].base.proto == old(arena).objects@[
                self.0 as int
            ].base.proto,
            final(arena).objects@[self.0 as int].base.class == old(arena).objects@[
                self.0 as int
            ].base.class,
            final(arena).objects@[self.0 as int].base.extensible == old(arena).objects@[
                self.0 as int
            ].base.extensible,
            final(arena).objects@[self.0 as int].executable == old(arena).objects@[
                self.0 as int
            ].executable,
    {
        proof {
            assert(arena.obj_wf(self.0 as int));
        }
        let ghost glen = arena.objects@.len() as nat;
        let d = &mut arena.objects[self.0];
        d.base.set_interfaces(iface_list, Ghost(glen));
        proof {
            crate::arena::lemma_wf_update_object(*old(arena), *arena, self.0 as int);
        }
    }

    /// The interface prototypes attached to the object, in attachment
    /// order.
    pub fn interfaces(self, arena: &Arena) -> (r: Vec<usize>)
        requires
            self.spec_valid(*arena),
        ensures
            r@ == self.spec_data(*arena).base.interfaces@,
    {
        arena.objects[self.0].base.interfaces()
    }

    /// Construct a class: turn a class declaration plus its defining scope
    /// into a live constructor/prototype pair.
    ///
    /// This returns both the constructor and the static class initializer,
    /// which the caller must invoke exactly once, with the constructor as
    /// receiver, before the class is used; derivation itself never invokes
    /// it.
    ///
    /// `base_class` may be absent, standing for a class with no superclass
    /// (in practice, interface declarations and the root object type): the
    /// instance prototype is then a bare root-level object. With a base
    /// class, its `prototype` property is fetched and its `derive`
    /// capability produces the class-aware instance prototype. Declared
    /// interfaces are resolved against the defining scope — a class derived
    /// without a scope gets zero interfaces — and any failure aborts the
    /// derivation before anything is built, so no half-linked pair is ever
    /// published.
    #[verifier::rlimit(100)]
    #[verifier::loop_isolation(false)]
    pub fn from_class(
        arena: &mut Arena,
        class: usize,
        base_class: Option<usize>,
        scope: Option<usize>,
        fn_proto: usize,
        class_constr_proto: usize,
    ) -> (r: Result<(usize, usize), Error>)
        requires
            old(arena).wf(),
            class < old(arena).classes@.len(),
            match base_class {
                Some(b) => b < old(arena).objects@.len(),
                None => true,
            },
            match scope {
                Some(s) => s < old(arena).scopes@.len(),
                None => true,
            },
            fn_proto < old(arena).objects@.len(),
            class_constr_proto < old(arena).objects@.len(),
        ensures
            final(arena).wf(),
            final(arena).scopes == old(arena).scopes,
            final(arena).classes == old(arena).classes,
            forall|j: int|
                0 <= j < old(arena).objects@.len() ==> final(arena).objects@[j] == old(
                    arena,
                ).objects@[j],
            r is Err ==> final(arena).objects@.len() == old(arena).objects@.len(),
            forall|q: QName|
                crate::names::is_prototype_qname(q) ==> #[trigger] from_class_case(
                    *old(arena),
                    *final(arena),
                    class,
                    base_class,
                    scope,
                    fn_proto,
                    class_constr_proto,
                    q,
                    r,
                ),
    {
        let proto_q = crate::names::prototype_qname();
        let ghost pq = proto_q;

        // Resolve the base class's prototype — a read, before anything is
        // built.
        let proto_target: Option<usize> = match base_class {
            Some(b) => {
                let got = arena.get_property(b, &proto_q);
                match got {
                    Some(Value::Object(p)) => {
                        proof {
                            arena.lemma_get_property_ok(b as int, pq);
                        }
                        Some(p)
                    },
                    _ => {
                        proof {
                            assert forall|q: QName| crate::names::is_prototype_qname(q) implies
                                #[trigger] from_class_case(
                                *old(arena),
                                *arena,
                                class,
                                base_class,
                                scope,
                                fn_proto,
                                class_constr_proto,
                                q,
                                Err::<(usize, usize), Error>(
                                    Error::UnresolvedSuperclassPrototype,
                                ),
                            ) by {
                                lemma_from_class_err_congruence(
                                    *arena,
                                    class,
                                    base_class,
                                    scope,
                                    pq,
                                    q,
                                );
                            }
                        }
                        return Err(Error::UnresolvedSuperclassPrototype);
                    },
                }
            },
            None => None,
        };

        // Resolve every declared interface to its prototype — still only
        // reads.
        let mut interfaces: Vec<usize> = Vec::new();
        match scope {
            Some(sc) => {
                let n_ifaces = arena.classes[class].interfaces.len();
                let mut k: usize = 0;
                while k < n_ifaces
                    invariant
                        *arena == *old(arena),
                        arena.wf(),
                        crate::names::is_prototype_qname(pq),
                        match base_class {
                            Some(b) => b < arena.objects@.len() && spec_base_proto(
                                *old(arena),
                                b,
                                pq,
                            ) is Some,
                            None => true,
                        },
                        class < arena.classes@.len(),
                        sc < arena.scopes@.len(),
                        n_ifaces == arena.classes@[class as int].interfaces@.len(),
                        k <= n_ifaces,
                        interfaces@.len() == k,
                        forall|j: int|
                            0 <= j < k ==> Some(#[trigger] interfaces@[j]) == spec_iface_proto(
                                *arena,
                                sc as int,
                                arena.classes@[class as int].interfaces@[j],
                                pq,
                            ),
                    decreases n_ifaces - k,
                {
                    let name = &arena.classes[class].interfaces[k];
                    let resolved = crate::scope::Scope::resolve(arena, sc, name);
                    match resolved {
                        Some(Value::Object(io)) => {
                            proof {
                                arena.lemma_resolve_ok(sc as int, *name);
                            }
                            let got = arena.get_property(io, &proto_q);
                            match got {
                                Some(Value::Object(ip)) => {
                                    interfaces.push(ip);
                                },
                                _ => {
                                    let e = Error::UnresolvedInterface(
                                        crate::names::bytes_clone(&name.local),
                                    );
                                    proof {
                                        assert(spec_iface_proto(
                                            *arena,
                                            sc as int,
                                            arena.classes@[class as int].interfaces@[k as int],
                                            pq,
                                        ) is None);
                                        assert(spec_ifaces_fail(*arena, class, scope, pq));
                                        assert forall|q: QName|
                                            crate::names::is_prototype_qname(q) implies
                                            #[trigger] from_class_case(
                                            *old(arena),
                                            *arena,
                                            class,
                                            base_class,
                                            scope,
                                            fn_proto,
                                            class_constr_proto,
                                            q,
                                            Err::<(usize, usize), Error>(e),
                                        ) by {
                                            lemma_from_class_err_congruence(
                                                *arena,
                                                class,
                                                base_class,
                                                scope,
                                                pq,
                                                q,
                                            );
                                        }
                                    }
                                    return Err(e);
                                },
                            }
                        },
                        _ => {
                            let e = Error::UnresolvedInterface(
                                crate::names::bytes_clone(&name.local),
                            );
                            proof {
                                assert(spec_iface_proto(
                                    *arena,
                                    sc as int,
                                    arena.classes@[class as int].interfaces@[k as int],
                                    pq,
                                ) is None);
                                assert(spec_ifaces_fail(*arena, class, scope, pq));
                                assert forall|q: QName| crate::names::is_prototype_qname(q) implies
                                    #[trigger] from_class_case(
                                    *old(arena),
                                    *arena,
                                    class,
                                    base_class,
                                    scope,
                                    fn_proto,
                                    class_constr_proto,
                                    q,
                                    Err::<(usize, usize), Error>(e),
                                ) by {
                                    lemma_from_class_err_congruence(
                                        *arena,
                                        class,
                                        base_class,
                                        scope,
                                        pq,
                                        q,
                                    );
                                }
                            }
                            return Err(e);
                        },
                    }
                    k += 1;
                }
            },
            None => {},
        }

        // From here on everything resolves; build the three objects.
        proof {
            match scope {
                Some(sc) => {
                    assert forall|k2: int|
                        0 <= k2 < old(arena).classes@[class as int].interfaces@.len() implies !(
                    #[trigger] spec_iface_proto(
                        *old(arena),
                        sc as int,
                        old(arena).classes@[class as int].interfaces@[k2],
                        pq,
                    ) is None) by {
                        assert(Some(interfaces@[k2]) == spec_iface_proto(
                            *old(arena),
                            sc as int,
                            old(arena).classes@[class as int].interfaces@[k2],
                            pq,
                        ));
                    }
                },
                None => {},
            }
            assert(!spec_ifaces_fail(*old(arena), class, scope, pq));
        }
        let ghost ifaces_snap = interfaces@;
        let instance_init = arena.classes[class].instance_init;
        let class_init = arena.classes[class].class_init;

        let class_proto: usize = match proto_target {
            Some(p) => match FunctionObject(p).derive(arena, class, scope) {
                Ok(id) => id,
                Err(e) => {
                    return Err(e);
                },
            },
            None => arena.bare_object(),
        };

        if interfaces.len() > 0 {
            FunctionObject(class_proto).set_interfaces(arena, interfaces);
        }

        let constr = arena.push_object(
            FunctionObjectData {
                base: ScriptObjectData::base_new(
                    Some(fn_proto),
                    ScriptObjectClass::ClassConstructor(class, scope),
                ),
                executable: Some(Executable::from_method(instance_init, scope, None)),
            },
        );

        let r1 = FunctionObject(constr).install_dynamic_property(
            arena,
            &proto_q,
            Value::Object(class_proto),
        );
        match r1 {
            Ok(_) => {},
            Err(e) => {
                return Err(e);
            },
        }

        let constructor_q = crate::names::constructor_qname();
        let ghost cq = constructor_q;
        let r2 = FunctionObject(class_proto).install_dynamic_property(
            arena,
            &constructor_q,
            Value::Object(constr),
        );
        match r2 {
            Ok(_) => {},
            Err(e) => {
                return Err(e);
            },
        }

        let class_constr = FunctionObject::from_method(
            arena,
            class_init,
            scope,
            class_constr_proto,
            None,
        );

        proof {
            let p = old(arena).objects@.len() as int;
            assert forall|q: QName| crate::names::is_prototype_qname(q) implies #[trigger]
                from_class_case(
                *old(arena),
                *arena,
                class,
                base_class,
                scope,
                fn_proto,
                class_constr_proto,
                q,
                Ok((constr, class_constr)),
            ) by {
                crate::names::lemma_special_qnames(q, pq);
                match base_class {
                    Some(b) => {
                        old(arena).lemma_get_property_respects_eq(b as int, q, pq);
                    },
                    None => {},
                }
                match scope {
                    Some(sc) => {
                        assert forall|k: int|
                            0 <= k < old(arena).classes@[class as int].interfaces@.len() implies
                            #[trigger] spec_iface_proto(
                            *old(arena),
                            sc as int,
                            old(arena).classes@[class as int].interfaces@[k],
                            q,
                        ) == spec_iface_proto(
                            *old(arena),
                            sc as int,
                            old(arena).classes@[class as int].interfaces@[k],
                            pq,
                        ) by {
                            let nm = old(arena).classes@[class as int].interfaces@[k];
                            match old(arena).spec_resolve(sc as int, nm) {
                                Some(Value::Object(io)) => {
                                    old(arena).lemma_get_property_respects_eq(io as int, q, pq);
                                },
                                _ => {},
                            }
                        }
                    },
                    None => {},
                }
                crate::object::lemma_find_respects_eq(
                    arena.objects@[constr as int].base.properties@,
                    q,
                    pq,
                );
                assert forall|q2: QName| crate::names::is_constructor_qname(q2) implies #[trigger]
                    spec_find_prop(arena.objects@[p].base.properties@, q2) == Some(
                    Property::Stored {
                        value: Value::Object(constr),
                        attributes: Attributes::spec_dynamic(),
                    },
                ) by {
                    crate::names::lemma_special_qnames(q2, cq);
                    crate::object::lemma_find_respects_eq(
                        arena.objects@[p].base.properties@,
                        q2,
                        cq,
                    );
                }
            }
        }

        Ok((constr, class_constr))
    }
}

/// Whether two traits declare the same member.
pub open spec fn trait_eq(a: Trait, b: Trait) -> bool {
    a.name.spec_eq(b.name) && b.name.spec_eq(a.name) && a.kind == b.kind
}

/// The traits from `pos` on whose name is `name`, in declaration order.
pub open spec fn spec_matching_traits(traits: Seq<Trait>, name: QName, pos: int) -> Seq<Trait>
    decreases traits.len() - pos,
{
    if pos < 0 || pos >= traits.len() {
        Seq::empty()
    } else if traits[pos].name.spec_eq(name) {
        seq![traits[pos]] + spec_matching_traits(traits, name, pos + 1)
    } else {
        spec_matching_traits(traits, name, pos + 1)
    }
}

/// Whether some trait declares `name`.
pub open spec fn spec_has_matching_trait(traits: Seq<Trait>, name: QName) -> bool {
    exists|i: int| 0 <= i < traits.len() && #[trigger] traits[i].name.spec_eq(name)
}

/// The namespace of the first trait from `pos` on whose local name is
/// `local`.
pub open spec fn spec_trait_ns_for_local(traits: Seq<Trait>, local: Seq<u8>, pos: int) -> Option<
    Namespace,
>
    decreases traits.len() - pos,
{
    if pos < 0 || pos >= traits.len() {
        None
    } else if traits[pos].name.local@ == local {
        Some(traits[pos].name.ns)
    } else {
        spec_trait_ns_for_local(traits, local, pos + 1)
    }
}

/// The namespace of the first property entry from `pos` on whose local
/// name is `local`.
pub open spec fn spec_prop_ns_for_local(
    props: Seq<crate::object::PropertyEntry>,
    local: Seq<u8>,
    pos: int,
) -> Option<Namespace>
    decreases props.len() - pos,
{
    if pos < 0 || pos >= props.len() {
        None
    } else if props[pos].name.local@ == local {
        Some(props[pos].name.ns)
    } else {
        spec_prop_ns_for_local(props, local, pos + 1)
    }
}

/// Whether two optional namespaces denote the same namespace.
pub open spec fn opt_ns_eq(a: Option<Namespace>, b: Option<Namespace>) -> bool {
    match (a, b) {
        (Some(x), Some(y)) => x.spec_eq(y) && y.spec_eq(x),
        (None, None) => true,
        _ => false,
    }
}

/// Collect the traits from `pos` on whose name is `name`.
fn collect_matching_traits(traits: &Vec<Trait>, name: &QName, pos: usize) -> (r: Vec<Trait>)
    ensures
        r@.len() == spec_matching_traits(traits@, *name, pos as int).len(),
        forall|i: int|
            0 <= i < r@.len() ==> trait_eq(
                #[trigger] r@[i],
                spec_matching_traits(traits@, *name, pos as int)[i],
            ),
    decreases traits@.len() - pos,
{
    if pos >= traits.len() {
        Vec::new()
    } else {
        let mut rest = collect_matching_traits(traits, name, pos + 1);
        if crate::names::qname_matches(&traits[pos].name, name) {
            let mut v: Vec<Trait> = Vec::new();
            v.push(
                Trait {
                    name: crate::names::qname_clone(&traits[pos].name),
                    kind: traits[pos].kind,
                },
            );
            v.append(&mut rest);
            v
        } else {
            rest
        }
    }
}

/// The namespace of the first trait from `pos` on with this local name.
fn trait_ns_for_local(traits: &Vec<Trait>, local: &Vec<u8>, pos: usize) -> (r: Option<Namespace>)
    ensures
        opt_ns_eq(r, spec_trait_ns_for_local(traits@, local@, pos as int)),
    decreases traits@.len() - pos,
{
    if pos >= traits.len() {
        None
    } else if crate::names::bytes_eq(&traits[pos].name.local, local) {
        Some(crate::names::ns_clone(&traits[pos].name.ns))
    } else {
        trait_ns_for_local(traits, local, pos + 1)
    }
}

impl FunctionObject {
    /// The prototype link.
    pub fn proto(self, arena: &Arena) -> (r: Option<usize>)
        requires
            self.spec_valid(*arena),
        ensures
            r == self.spec_data(*arena).base.proto,
    {
        arena.objects[self.0].base.proto
    }

    /// The scope the object's class was defined in, if it has a class
    /// marker.
    pub fn get_scope(self, arena: &Arena) -> (r: Option<usize>)
        requires
            self.spec_valid(*arena),
        ensures
            r == match self.spec_data(*arena).base.class {
                ScriptObjectClass::ClassConstructor(_, s) => s,
                ScriptObjectClass::InstancePrototype(_, s) => s,
                ScriptObjectClass::NoClass => None::<usize>,
            },
    {
        arena.objects[self.0].base.get_scope()
    }

    /// Read the numbered slot `id`.
    pub fn get_slot(self, arena: &Arena, id: usize) -> (r: Result<Value, Error>)
        requires
            self.spec_valid(*arena),
        ensures
            match r {
                Ok(v) => id < self.spec_data(*arena).base.slots@.len() && value_eq(
                    v,
                    self.spec_data(*arena).base.slots@[id as int],
                ),
                Err(e) => id >= self.spec_data(*arena).base.slots@.len() && e matches
                    Error::SlotOutOfBounds,
            },
    {
        arena.objects[self.0].base.get_slot(id)
    }

    /// Write the numbered slot `id` through the general assignment path.
    pub fn set_slot(self, arena: &mut Arena, id: usize, value: Value) -> (r: Result<(), Error>)
        requires
            old(arena).wf(),
            self.spec_valid(*old(arena)),
            value_ok(value, old(arena).objects@.len() as nat),
        ensures
            final(arena).wf(),
            id < old(arena).objects@[self.0 as int].base.slots@.len() ==> r is Ok
                && arena_slot_written(*old(arena), *final(arena), self.0, id, value),
            id >= old(arena).objects@[self.0 as int].base.slots@.len() ==> (r matches Err(
                Error::SlotOutOfBounds,
            )) && *final(arena) == *old(arena),
    {
        proof {
            assert(arena.obj_wf(self.0 as int));
        }
        if id >= arena.objects[self.0].base.slots.len() {
            return Err(Error::SlotOutOfBounds);
        }
        let ghost glen = arena.objects@.len() as nat;
        let d = &mut arena.objects[self.0];
        let r = d.base.set_slot(id, value, Ghost(glen));
        proof {
            crate::arena::lemma_wf_update_object(*old(arena), *arena, self.0 as int);
        }
        r
    }

    /// Write the numbered slot `id` through the construction path.
    pub fn init_slot(self, arena: &mut Arena, id: usize, value: Value) -> (r: Result<(), Error>)
        requires
            old(arena).wf(),
            self.spec_valid(*old(arena)),
            value_ok(value, old(arena).objects@.len() as nat),
        ensures
            final(arena).wf(),
            id < old(arena).objects@[self.0 as int].base.slots@.len() ==> r is Ok
                && arena_slot_written(*old(arena), *final(arena), self.0, id, value),
            id >= old(arena).objects@[self.0 as int].base.slots@.len() ==> (r matches Err(
                Error::SlotOutOfBounds,
            )) && *final(arena) == *old(arena),
    {
        self.set_slot(arena, id, value)
    }

    /// The installed method with dispatch id `id`.
    pub fn get_method(self, arena: &Arena, id: usize) -> (r: Option<usize>)
        requires
            self.spec_valid(*arena),
        ensures
            r == if id < self.spec_data(*arena).base.methods@.len() {
                self.spec_data(*arena).base.methods@[id as int]
            } else {
                None::<usize>
            },
    {
        arena.objects[self.0].base.get_method(id)
    }

    /// Bind `name` to a fresh or existing slot `id` holding `value`, as a
    /// declared member.
    pub fn install_slot(self, arena: &mut Arena, name: &QName, id: usize, value: Value)
        requires
            old(arena).wf(),
            self.spec_valid(*old(arena)),
            value_ok(value, old(arena).objects@.len() as nat),
            id < usize::MAX,
        ensures
            final(arena).wf(),
            final(arena).objects@.len() == old(arena).objects@.len(),
            final(arena).scopes == old(arena).scopes,
            final(arena).classes == old(arena).classes,
            forall|j: int|
                0 <= j < old(arena).objects@.len() && j != self.0 ==> final(arena).objects@[j]
                    == old(arena).objects@[j],
            final(arena).objects@[self.0 as int].base.slots@.len() >= id + 1,
            final(arena).objects@[self.0 as int].base.slots@[id as int] == value,
            spec_find_prop(final(arena).objects@[self.0 as int].base.properties@, *name) == Some(
                Property::Slot {
                    slot_id: id,
                    attributes: Attributes { enumerable: false, overwritable: true },
                },
            ),
            forall|other: QName|
                !other.spec_eq(*name) && !name.spec_eq(other) ==> #[trigger] spec_find_prop(
                    final(arena).objects@[self.0 as int].base.properties@,
                    other,
                ) == spec_find_prop(old(arena).objects@[self.0 as int].base.properties@, other),
    {
        proof {
            assert(arena.obj_wf(self.0 as int));
        }
        let ghost glen = arena.objects@.len() as nat;
        let nm = crate::names::qname_clone(name);
        let ghost nm_snap = nm;
        let d = &mut arena.objects[self.0];
        d.base.install_slot(nm, id, value, Ghost(glen));
        proof {
            crate::arena::lemma_wf_update_object(*old(arena), *arena, self.0 as int);
            let props = arena.objects@[self.0 as int].base.properties@;
            crate::object::lemma_find_respects_eq(props, *name, nm_snap);
            assert forall|other: QName| !other.spec_eq(*name) && !name.spec_eq(other) implies
                #[trigger] spec_find_prop(props, other) == spec_find_prop(
                old(arena).objects@[self.0 as int].base.properties@,
                other,
            ) by {
                if other.spec_eq(nm_snap) {
                    crate::names::lemma_qname_eq_trans(other, nm_snap, *name);
                }
                if nm_snap.spec_eq(other) {
                    crate::names::lemma_qname_eq_trans(*name, nm_snap, other);
                }
            }
        }
    }

    /// Bind `name` to slot `id` holding `value`, fixed against the general
    /// assignment path.
    pub fn install_const(self, arena: &mut Arena, name: &QName, id: usize, value: Value)
        requires
            old(arena).wf(),
            self.spec_valid(*old(arena)),
            value_ok(value, old(arena).objects@.len() as nat),
            id < usize::MAX,
        ensures
            final(arena).wf(),
            final(arena).objects@.len() == old(arena).objects@.len(),
            final(arena).scopes == old(arena).scopes,
            final(arena).classes == old(arena).classes,
            forall|j: int|
                0 <= j < old(arena).objects@.len() && j != self.0 ==> final(arena).objects@[j]
                    == old(arena).objects@[j],
            final(arena).objects@[self.0 as int].base.slots@.len() >= id + 1,
            final(arena).objects@[self.0 as int].base.slots@[id as int] == value,
            spec_find_prop(final(arena).objects@[self.0 as int].base.properties@, *name) == Some(
                Property::Slot {
                    slot_id: id,
                    attributes: Attributes { enumerable: false, overwritable: false },
                },
            ),
            forall|other: QName|
                !other.spec_eq(*name) && !name.spec_eq(other) ==> #[trigger] spec_find_prop(
                    final(arena).objects@[self.0 as int].base.properties@,
                    other,
                ) == spec_find_prop(old(arena).objects@[self.0 as int].base.properties@, other),
    {
        proof {
            assert(arena.obj_wf(self.0 as int));
        }
        let ghost glen = arena.objects@.len() as nat;
        let nm = crate::names::qname_clone(name);
        let ghost nm_snap = nm;
        let d = &mut arena.objects[self.0];
        d.base.install_const(nm, id, value, Ghost(glen));
        proof {
            crate::arena::lemma_wf_update_object(*old(arena), *arena, self.0 as int);
            let props = arena.objects@[self.0 as int].base.properties@;
            crate::object::lemma_find_respects_eq(props, *name, nm_snap);
            assert forall|other: QName| !other.spec_eq(*name) && !name.spec_eq(other) implies
                #[trigger] spec_find_prop(props, other) == spec_find_prop(
                old(arena).objects@[self.0 as int].base.properties@,
                other,
            ) by {
                if other.spec_eq(nm_snap) {
                    crate::names::lemma_qname_eq_trans(other, nm_snap, *name);
                }
                if nm_snap.spec_eq(other) {
                    crate::names::lemma_qname_eq_trans(*name, nm_snap, other);
                }
            }
        }
    }

    /// Install the function object `func` as a method under `name` with
    /// dispatch id `disp_id`.
    pub fn install_method(self, arena: &mut Arena, name: &QName, disp_id: usize, func: usize)
        requires
            old(arena).wf(),
            self.spec_valid(*old(arena)),
            func < old(arena).objects@.len(),
            disp_id < usize::MAX,
        ensures
            final(arena).wf(),
            final(arena).objects@.len() == old(arena).objects@.len(),
            final(arena).scopes == old(arena).scopes,
            final(arena).classes == old(arena).classes,
            forall|j: int|
                0 <= j < old(arena).objects@.len() && j != self.0 ==> final(arena).objects@[j]
                    == old(arena).objects@[j],
            final(arena).objects@[self.0 as int].base.methods@.len() >= disp_id + 1,
            final(arena).objects@[self.0 as int].base.methods@[disp_id as int] == Some(func),
            spec_find_prop(final(arena).objects@[self.0 as int].base.properties@, *name) == Some(
                Property::Method { disp_id, func, attributes: Attributes::spec_declared() },
            ),
            forall|other: QName|
                !other.spec_eq(*name) && !name.spec_eq(other) ==> #[trigger] spec_find_prop(
                    final(arena).objects@[self.0 as int].base.properties@,
                    other,
                ) == spec_find_prop(old(arena).objects@[self.0 as int].base.properties@, other),
    {
        proof {
            assert(arena.obj_wf(self.0 as int));
        }
        let ghost glen = arena.objects@.len() as nat;
        let nm = crate::names::qname_clone(name);
        let ghost nm_snap = nm;
        let d = &mut arena.objects[self.0];
        d.base.install_method(nm, disp_id, func, Ghost(glen));
        proof {
            crate::arena::lemma_wf_update_object(*old(arena), *arena, self.0 as int);
            let props = arena.objects@[self.0 as int].base.properties@;
            crate::object::lemma_find_respects_eq(props, *name, nm_snap);
            assert forall|other: QName| !other.spec_eq(*name) && !name.spec_eq(other) implies
                #[trigger] spec_find_prop(props, other) == spec_find_prop(
                old(arena).objects@[self.0 as int].base.properties@,
                other,
            ) by {
                if other.spec_eq(nm_snap) {
                    crate::names::lemma_qname_eq_trans(other, nm_snap, *name);
                }
                if nm_snap.spec_eq(other) {
                    crate::names::lemma_qname_eq_trans(*name, nm_snap, other);
                }
            }
        }
    }

    /// Install the function object `func` as the getter of the computed
    /// property `name`. Fails when `func` carries no executable.
    pub fn install_getter(self, arena: &mut Arena, name: &QName, disp_id: usize, func: usize)
        -> (r: Result<(), Error>)
        requires
            old(arena).wf(),
            self.spec_valid(*old(arena)),
            func < old(arena).objects@.len(),
        ensures
            final(arena).wf(),
            old(arena).objects@[func as int].executable is None ==> (r matches Err(
                Error::NotCallable,
            )) && *final(arena) == *old(arena),
            match old(arena).objects@[func as int].executable {
                Some(e) => r is Ok && arena_prop_written(
                    *old(arena),
                    *final(arena),
                    self.0,
                    *name,
                    Property::Virtual {
                        getter: Some(e),
                        setter: (match spec_find_prop(
                            old(arena).objects@[self.0 as int].base.properties@,
                            *name,
                        ) {
                            Some(Property::Virtual { setter: s, .. }) => s,
                            _ => None::<Executable>,
                        }),
                        attributes: Attributes::spec_declared(),
                    },
                ),
                None => true,
            },
    {
        let _ = disp_id;
        proof {
            assert(arena.obj_wf(self.0 as int));
        }
        let e = match arena.objects[func].executable {
            Some(e) => e,
            None => {
                return Err(Error::NotCallable);
            },
        };
        let ghost glen = arena.objects@.len() as nat;
        let nm = crate::names::qname_clone(name);
        let ghost nm_snap = nm;
        proof {
            crate::object::lemma_find_respects_eq(
                arena.objects@[self.0 as int].base.properties@,
                *name,
                nm_snap,
            );
        }
        let d = &mut arena.objects[self.0];
        d.base.install_getter_exec(nm, e, Ghost(glen));
        proof {
            crate::arena::lemma_wf_update_object(*old(arena), *arena, self.0 as int);
            let props = arena.objects@[self.0 as int].base.properties@;
            crate::object::lemma_find_respects_eq(props, *name, nm_snap);
            assert forall|other: QName| !other.spec_eq(*name) && !name.spec_eq(other) implies
                #[trigger] spec_find_prop(props, other) == spec_find_prop(
                old(arena).objects@[self.0 as int].base.properties@,
                other,
            ) by {
                if other.spec_eq(nm_snap) {
                    crate::names::lemma_qname_eq_trans(other, nm_snap, *name);
                }
                if nm_snap.spec_eq(other) {
                    crate::names::lemma_qname_eq_trans(*name, nm_snap, other);
                }
            }
        }
        Ok(())
    }

    /// Install the function object `func` as the setter of the computed
    /// property `name`. Fails when `func` carries no executable.
    pub fn install_setter(self, arena: &mut Arena, name: &QName, disp_id: usize, func: usize)
        -> (r: Result<(), Error>)
        requires
            old(arena).wf(),
            self.spec_valid(*old(arena)),
            func < old(arena).objects@.len(),
        ensures
            final(arena).wf(),
            old(arena).objects@[func as int].executable is None ==> (r matches Err(
                Error::NotCallable,
            )) && *final(arena) == *old(arena),
            match old(arena).objects@[func as int].executable {
                Some(e) => r is Ok && arena_prop_written(
                    *old(arena),
                    *final(arena),
                    self.0,
                    *name,
                    Property::Virtual {
                        getter: (match spec_find_prop(
                            old(arena).objects@[self.0 as int].base.properties@,
                            *name,
                        ) {
                            Some(Property::Virtual { getter: g, .. }) => g,
                            _ => None::<Executable>,
                        }),
                        setter: Some(e),
                        attributes: Attributes::spec_declared(),
                    },
                ),
                None => true,
            },
    {
        let _ = disp_id;
        proof {
            assert(arena.obj_wf(self.0 as int));
        }
        let e = match arena.objects[func].executable {
            Some(e) => e,
            None => {
                return Err(Error::NotCallable);
            },
        };
        let ghost glen = arena.objects@.len() as nat;
        let nm = crate::names::qname_clone(name);
        let ghost nm_snap = nm;
        proof {
            crate::object::lemma_find_respects_eq(
                arena.objects@[self.0 as int].base.properties@,
                *name,
                nm_snap,
            );
        }
        let d = &mut arena.objects[self.0];
        d.base.install_setter_exec(nm, e, Ghost(glen));
        proof {
            crate::arena::lemma_wf_update_object(*old(arena), *arena, self.0 as int);
            let props = arena.objects@[self.0 as int].base.properties@;
            crate::object::lemma_find_respects_eq(props, *name, nm_snap);
            assert forall|other: QName| !other.spec_eq(*name) && !name.spec_eq(other) implies
                #[trigger] spec_find_prop(props, other) == spec_find_prop(
                old(arena).objects@[self.0 as int].base.properties@,
                other,
            ) by {
                if other.spec_eq(nm_snap) {
                    crate::names::lemma_qname_eq_trans(other, nm_snap, *name);
                }
                if nm_snap.spec_eq(other) {
                    crate::names::lemma_qname_eq_trans(*name, nm_snap, other);
                }
            }
        }
        Ok(())
    }

    /// Whether the general assignment path may write `name`.
    pub fn is_property_overwritable(self, arena: &Arena, name: &QName) -> (r: bool)
        requires
            self.spec_valid(*arena),
        ensures
            r == match spec_find_prop(self.spec_data(*arena).base.properties@, *name) {
                Some(p) => p.attrs().overwritable,
                None => true,
            },
    {
        arena.objects[self.0].base.is_property_overwritable(name)
    }

    /// Remove the dynamic property `name`; the result says whether a
    /// stored, overwritable property was removed.
    pub fn delete_property(self, arena: &mut Arena, name: &QName) -> (r: bool)
        requires
            old(arena).wf(),
            self.spec_valid(*old(arena)),
        ensures
            final(arena).wf(),
            final(arena).objects@.len() == old(arena).objects@.len(),
            final(arena).scopes == old(arena).scopes,
            final(arena).classes == old(arena).classes,
            forall|j: int|
                0 <= j < old(arena).objects@.len() && j != self.0 ==> final(arena).objects@[j]
                    == old(arena).objects@[j],
            r == match spec_find_prop(old(arena).objects@[self.0 as int].base.properties@, *name) {
                Some(Property::Stored { attributes, .. }) => attributes.overwritable,
                _ => false,
            },
            forall|other: QName|
                !other.spec_eq(*name) && !name.spec_eq(other) ==> #[trigger] spec_find_prop(
                    final(arena).objects@[self.0 as int].base.properties@,
                    other,
                ) == spec_find_prop(old(arena).objects@[self.0 as int].base.properties@, other),
            !r ==> *final(arena) == *old(arena),
    {
        proof {
            assert(arena.obj_wf(self.0 as int));
        }
        let ghost glen = arena.objects@.len() as nat;
        let will_delete = match arena.objects[self.0].base.find_index(name) {
            Some(i) => {
                proof {
                    crate::object::lemma_find_index_prop(
                        arena.objects@[self.0 as int].base.properties@,
                        *name,
                    );
                }
                match &arena.objects[self.0].base.properties[i].prop {
                    Property::Stored { attributes, .. } => attributes.overwritable,
                    _ => false,
                }
            },
            None => {
                proof {
                    crate::object::lemma_find_index_prop(
                        arena.objects@[self.0 as int].base.properties@,
                        *name,
                    );
                }
                false
            },
        };
        if !will_delete {
            return false;
        }
        let d = &mut arena.objects[self.0];
        let r = d.base.delete_property(name, Ghost(glen));
        proof {
            crate::arena::lemma_wf_update_object(*old(arena), *arena, self.0 as int);
        }
        r
    }

    /// Whether the object itself has `name`.
    pub fn has_own_property(self, arena: &Arena, name: &QName) -> (r: bool)
        requires
            self.spec_valid(*arena),
        ensures
            r == (spec_find_prop(self.spec_data(*arena).base.properties@, *name) is Some),
    {
        arena.objects[self.0].base.has_own_property(name)
    }

    /// Whether the object has instantiated `name` in its own table, as
    /// opposed to merely declaring it as a trait.
    pub fn has_instantiated_property(self, arena: &Arena, name: &QName) -> (r: bool)
        requires
            self.spec_valid(*arena),
        ensures
            r == (spec_find_prop(self.spec_data(*arena).base.properties@, *name) is Some),
    {
        arena.objects[self.0].base.has_own_property(name)
    }

    /// Whether the object has an own computed property with a getter under
    /// `name`.
    pub fn has_own_virtual_getter(self, arena: &Arena, name: &QName) -> (r: bool)
        requires
            self.spec_valid(*arena),
        ensures
            r == match spec_find_prop(self.spec_data(*arena).base.properties@, *name) {
                Some(Property::Virtual { getter, .. }) => getter is Some,
                _ => false,
            },
    {
        arena.objects[self.0].base.has_own_virtual_getter(name)
    }

    /// Whether the object has an own computed property with a setter under
    /// `name`.
    pub fn has_own_virtual_setter(self, arena: &Arena, name: &QName) -> (r: bool)
        requires
            self.spec_valid(*arena),
        ensures
            r == match spec_find_prop(self.spec_data(*arena).base.properties@, *name) {
                Some(Property::Virtual { setter, .. }) => setter is Some,
                _ => false,
            },
    {
        arena.objects[self.0].base.has_own_virtual_setter(name)
    }

    /// Whether enumeration yields `name`.
    pub fn property_is_enumerable(self, arena: &Arena, name: &QName) -> (r: bool)
        requires
            self.spec_valid(*arena),
        ensures
            r == match spec_find_prop(self.spec_data(*arena).base.properties@, *name) {
                Some(p) => p.attrs().enumerable,
                None => false,
            },
    {
        arena.objects[self.0].base.property_is_enumerable(name)
    }

    /// Set whether enumeration yields the own property `name`.
    pub fn set_local_property_is_enumerable(
        self,
        arena: &mut Arena,
        name: &QName,
        is_enumerable: bool,
    ) -> (r: Result<(), Error>)
        requires
            old(arena).wf(),
            self.spec_valid(*old(arena)),
        ensures
            final(arena).wf(),
            r is Ok,
            final(arena).objects@.len() == old(arena).objects@.len(),
            final(arena).scopes == old(arena).scopes,
            final(arena).classes == old(arena).classes,
            forall|j: int|
                0 <= j < old(arena).objects@.len() && j != self.0 ==> final(arena).objects@[j]
                    == old(arena).objects@[j],
            match spec_find_prop(old(arena).objects@[self.0 as int].base.properties@, *name) {
                Some(p) => spec_find_prop(
                    final(arena).objects@[self.0 as int].base.properties@,
                    *name,
                ) == Some(
                    p.spec_with_attrs(
                        Attributes {
                            enumerable: is_enumerable,
                            overwritable: p.attrs().overwritable,
                        },
                    ),
                ),
                None => *final(arena) == *old(arena),
            },
            forall|other: QName|
                !other.spec_eq(*name) && !name.spec_eq(other) ==> #[trigger] spec_find_prop(
                    final(arena).objects@[self.0 as int].base.properties@,
                    other,
                ) == spec_find_prop(old(arena).objects@[self.0 as int].base.properties@, other),
    {
        proof {
            assert(arena.obj_wf(self.0 as int));
        }
        match arena.objects[self.0].base.find_index(name) {
            Some(_) => {},
            None => {
                proof {
                    crate::object::lemma_find_index_prop(
                        arena.objects@[self.0 as int].base.properties@,
                        *name,
                    );
                }
                return Ok(());
            },
        }
        proof {
            crate::object::lemma_find_index_prop(
                arena.objects@[self.0 as int].base.properties@,
                *name,
            );
        }
        let ghost glen = arena.objects@.len() as nat;
        let d = &mut arena.objects[self.0];
        let r = d.base.set_local_property_is_enumerable(name, is_enumerable, Ghost(glen));
        proof {
            crate::arena::lemma_wf_update_object(*old(arena), *arena, self.0 as int);
        }
        r
    }

    /// The name of the enumerable own property at rank `index`, in
    /// insertion order.
    pub fn get_enumerant_name(self, arena: &Arena, index: usize) -> (r: Option<QName>)
        requires
            self.spec_valid(*arena),
        ensures
            match (r, crate::object::spec_enumerant(
                self.spec_data(*arena).base.properties@,
                index as int,
            )) {
                (Some(q), Some(s)) => q.spec_eq(s) && s.spec_eq(q),
                (None, None) => true,
                _ => false,
            },
    {
        arena.objects[self.0].base.get_enumerant_name(index)
    }

    /// The value the object converts to: itself.
    pub fn value_of(self, _arena: &Arena) -> (r: Result<Value, Error>)
        ensures
            r == Ok::<Value, Error>(Value::Object(self.0)),
    {
        Ok(Value::Object(self.0))
    }

    /// The text the object converts to: a class constructor names its
    /// class, anything else reads as a plain function.
    pub fn to_string(self, arena: &Arena) -> (r: Result<Value, Error>)
        requires
            arena.wf(),
            self.spec_valid(*arena),
        ensures
            match r {
                Ok(Value::String(s)) => s@ == spec_object_text(*arena, self.0),
                _ => false,
            },
    {
        proof {
            assert(arena.obj_wf(self.0 as int));
        }
        match arena.objects[self.0].base.class {
            ScriptObjectClass::ClassConstructor(c, _) => {
                let mut out: Vec<u8> = vec![91u8, 99u8, 108u8, 97u8, 115u8, 115u8, 32u8];
                let nm = &arena.classes[c].name.local;
                let n = nm.len();
                let mut i: usize = 0;
                while i < n
                    invariant
                        n == nm@.len(),
                        i <= n,
                        out@ == seq![91u8, 99u8, 108u8, 97u8, 115u8, 115u8, 32u8] + nm@.subrange(
                            0,
                            i as int,
                        ),
                    decreases n - i,
                {
                    out.push(nm[i]);
                    assert(out@ =~= seq![91u8, 99u8, 108u8, 97u8, 115u8, 115u8, 32u8]
                        + nm@.subrange(0, i + 1 as int));
                    i += 1;
                }
                out.push(93u8);
                proof {
                    assert(nm@.subrange(0, n as int) =~= nm@);
                    assert(out@ =~= spec_object_text(*arena, self.0));
                }
                Ok(Value::String(out))
            },
            _ => {
                let out: Vec<u8> = vec![
                    102u8, 117u8, 110u8, 99u8, 116u8, 105u8, 111u8, 110u8, 32u8, 70u8, 117u8,
                    110u8, 99u8, 116u8, 105u8, 111u8, 110u8, 40u8, 41u8, 32u8, 123u8, 125u8,
                ];
                proof {
                    assert(out@ =~= spec_object_text(*arena, self.0));
                }
                Ok(Value::String(out))
            },
        }
    }

    /// The traits the object's class declares under `name`.
    pub fn get_trait(self, arena: &Arena, name: &QName) -> (r: Result<Vec<Trait>, Error>)
        requires
            arena.wf(),
            self.spec_valid(*arena),
        ensures
            match r {
                Ok(v) => {
                    let traits = spec_class_traits(*arena, self.0);
                    &&& v@.len() == spec_matching_traits(traits, *name, 0).len()
                    &&& forall|i: int|
                        0 <= i < v@.len() ==> trait_eq(
                            #[trigger] v@[i],
                            spec_matching_traits(traits, *name, 0)[i],
                        )
                },
                Err(_) => false,
            },
    {
        proof {
            assert(arena.obj_wf(self.0 as int));
        }
        match arena.objects[self.0].base.class {
            ScriptObjectClass::ClassConstructor(c, _) => Ok(
                collect_matching_traits(&arena.classes[c].traits, name, 0),
            ),
            ScriptObjectClass::InstancePrototype(c, _) => Ok(
                collect_matching_traits(&arena.classes[c].traits, name, 0),
            ),
            ScriptObjectClass::NoClass => {
                let v: Vec<Trait> = Vec::new();
                proof {
                    assert(spec_class_traits(*arena, self.0) =~= Seq::<Trait>::empty());
                }
                Ok(v)
            },
        }
    }

    /// Append the traits the object's class declares under `name` to
    /// `known_traits`.
    pub fn get_provided_trait(
        self,
        arena: &Arena,
        name: &QName,
        known_traits: &mut Vec<Trait>,
    ) -> (r: Result<(), Error>)
        requires
            arena.wf(),
            self.spec_valid(*arena),
        ensures
            r is Ok,
            final(known_traits)@.len() == old(known_traits)@.len() + spec_matching_traits(
                spec_class_traits(*arena, self.0),
                *name,
                0,
            ).len(),
            forall|i: int|
                0 <= i < old(known_traits)@.len() ==> final(known_traits)@[i] == old(
                    known_traits,
                )@[i],
            forall|i: int|
                old(known_traits)@.len() <= i < final(known_traits)@.len() ==> trait_eq(
                    #[trigger] final(known_traits)@[i],
                    spec_matching_traits(spec_class_traits(*arena, self.0), *name, 0)[
                        i - old(known_traits)@.len()
                    ],
                ),
    {
        let found = self.get_trait(arena, name);
        match found {
            Ok(mut v) => {
                known_traits.append(&mut v);
                Ok(())
            },
            Err(e) => Err(e),
        }
    }

    /// Whether the object's class declares a trait under `name`.
    pub fn has_trait(self, arena: &Arena, name: &QName) -> (r: Result<bool, Error>)
        requires
            arena.wf(),
            self.spec_valid(*arena),
        ensures
            match r {
                Ok(b) => b == spec_has_matching_trait(spec_class_traits(*arena, self.0), *name),
                Err(_) => false,
            },
    {
        self.provides_trait(arena, name)
    }

    /// Whether the object's own class provides a trait under `name`.
    #[verifier::loop_isolation(false)]
    pub fn provides_trait(self, arena: &Arena, name: &QName) -> (r: Result<bool, Error>)
        requires
            arena.wf(),
            self.spec_valid(*arena),
        ensures
            match r {
                Ok(b) => b == spec_has_matching_trait(spec_class_traits(*arena, self.0), *name),
                Err(_) => false,
            },
    {
        proof {
            assert(arena.obj_wf(self.0 as int));
        }
        let c: usize = match arena.objects[self.0].base.class {
            ScriptObjectClass::ClassConstructor(c, _) => c,
            ScriptObjectClass::InstancePrototype(c, _) => c,
            ScriptObjectClass::NoClass => {
                proof {
                    assert(spec_class_traits(*arena, self.0) =~= Seq::<Trait>::empty());
                }
                return Ok(false);
            },
        };
        let traits = &arena.classes[c].traits;
        let n = traits.len();
        let mut i: usize = 0;
        while i < n
            invariant
                n == traits@.len(),
                i <= n,
                forall|j: int| 0 <= j < i ==> !(#[trigger] traits@[j].name.spec_eq(*name)),
            decreases n - i,
        {
            if crate::names::qname_matches(&traits[i].name, name) {
                proof {
                    assert(spec_class_traits(*arena, self.0)[i as int].name.spec_eq(*name));
                }
                return Ok(true);
            }
            i += 1;
        }
        Ok(false)
    }

    /// The namespace in which some member with this local name exists: own
    /// properties first, then the class's traits.
    pub fn resolve_any(self, arena: &Arena, local_name: &Vec<u8>) -> (r: Result<
        Option<Namespace>,
        Error,
    >)
        requires
            arena.wf(),
            self.spec_valid(*arena),
        ensures
            match r {
                Ok(ns) => opt_ns_eq(
                    ns,
                    match spec_prop_ns_for_local(
                        self.spec_data(*arena).base.properties@,
                        local_name@,
                        0,
                    ) {
                        Some(found) => Some(found),
                        None => spec_trait_ns_for_local(
                            spec_class_traits(*arena, self.0),
                            local_name@,
                            0,
                        ),
                    },
                ),
                Err(_) => false,
            },
    {
        let own = self.prop_ns_for_local(arena, local_name, 0);
        match own {
            Some(ns) => Ok(Some(ns)),
            None => self.resolve_any_trait(arena, local_name),
        }
    }

    /// The namespace in which the class declares a trait with this local
    /// name.
    pub fn resolve_any_trait(self, arena: &Arena, local_name: &Vec<u8>) -> (r: Result<
        Option<Namespace>,
        Error,
    >)
        requires
            arena.wf(),
            self.spec_valid(*arena),
        ensures
            match r {
                Ok(ns) => opt_ns_eq(
                    ns,
                    spec_trait_ns_for_local(spec_class_traits(*arena, self.0), local_name@, 0),
                ),
                Err(_) => false,
            },
    {
        proof {
            assert(arena.obj_wf(self.0 as int));
        }
        match arena.objects[self.0].base.class {
            ScriptObjectClass::ClassConstructor(c, _) => Ok(
                trait_ns_for_local(&arena.classes[c].traits, local_name, 0),
            ),
            ScriptObjectClass::InstancePrototype(c, _) => Ok(
                trait_ns_for_local(&arena.classes[c].traits, local_name, 0),
            ),
            ScriptObjectClass::NoClass => {
                proof {
                    assert(spec_class_traits(*arena, self.0) =~= Seq::<Trait>::empty());
                }
                Ok(None)
            },
        }
    }

    /// The namespace of the first own property entry from `pos` on with
    /// this local name.
    fn prop_ns_for_local(self, arena: &Arena, local: &Vec<u8>, pos: usize) -> (r: Option<
        Namespace,
    >)
        requires
            self.spec_valid(*arena),
        ensures
            opt_ns_eq(
                r,
                spec_prop_ns_for_local(
                    self.spec_data(*arena).base.properties@,
                    local@,
                    pos as int,
                ),
            ),
        decreases arena.objects@[self.0 as int].base.properties@.len() - pos,
    {
        let props = &arena.objects[self.0].base.properties;
        if pos >= props.len() {
            None
        } else if crate::names::bytes_eq(&props[pos].name.local, local) {
            Some(crate::names::ns_clone(&props[pos].name.ns))
        } else {
            self.prop_ns_for_local(arena, local, pos + 1)
        }
    }
}

/// The traits of the class the object's marker records; a plain object has
/// none.
pub open spec fn spec_class_traits(arena: Arena, id: usize) -> Seq<Trait> {
    match arena.objects@[id as int].base.class {
        ScriptObjectClass::ClassConstructor(c, _) => arena.classes@[c as int].traits@,
        ScriptObjectClass::InstancePrototype(c, _) => arena.classes@[c as int].traits@,
        ScriptObjectClass::NoClass => Seq::empty(),
    }
}

/// The text an object renders as: `[class Name]` for a class constructor,
/// a plain function reading otherwise.
pub open spec fn spec_object_text(arena: Arena, id: usize) -> Seq<u8> {
    match arena.objects@[id as int].base.class {
        ScriptObjectClass::ClassConstructor(c, _) => seq![
            91u8, 99u8, 108u8, 97u8, 115u8, 115u8, 32u8,
        ] + arena.classes@[c as int].name.local@ + seq![93u8],
        _ => seq![
            102u8, 117u8, 110u8, 99u8, 116u8, 105u8, 111u8, 110u8, 32u8, 70u8, 117u8, 110u8,
            99u8, 116u8, 105u8, 111u8, 110u8, 40u8, 41u8, 32u8, 123u8, 125u8,
        ],
    }
}

/// On the read-only error paths of `from_class`, every `prototype`-named
/// name sees the same failure.
proof fn lemma_from_class_err_congruence(
    arena: Arena,
    class: usize,
    base_class: Option<usize>,
    scope: Option<usize>,
    pq: QName,
    q: QName,
)
    requires
        crate::names::is_prototype_qname(pq),
        crate::names::is_prototype_qname(q),
    ensures
        (match base_class {
            Some(b) => spec_base_proto(arena, b, q) is None,
            None => false,
        }) == (match base_class {
            Some(b) => spec_base_proto(arena, b, pq) is None,
            None => false,
        }),
        spec_ifaces_fail(arena, class, scope, q) == spec_ifaces_fail(arena, class, scope, pq),
{
    crate::names::lemma_special_qnames(q, pq);
    match base_class {
        Some(b) => {
            arena.lemma_get_property_respects_eq(b as int, q, pq);
        },
        None => {},
    }
    match scope {
        Some(sc) => {
            assert forall|k: int|
                0 <= k < arena.classes@[class as int].interfaces@.len() implies #[trigger]
                spec_iface_proto(
                arena,
                sc as int,
                arena.classes@[class as int].interfaces@[k],
                q,
            ) == spec_iface_proto(
                arena,
                sc as int,
                arena.classes@[class as int].interfaces@[k],
                pq,
            ) by {
                let nm = arena.classes@[class as int].interfaces@[k];
                match arena.spec_resolve(sc as int, nm) {
                    Some(Value::Object(io)) => {
                        arena.lemma_get_property_respects_eq(io as int, q, pq);
                    },
                    _ => {},
                }
            }
            if spec_ifaces_fail(arena, class, scope, q) {
                let k = choose|k: int|
                    0 <= k < arena.classes@[class as int].interfaces@.len() && spec_iface_proto(
                        arena,
                        sc as int,
                        arena.classes@[class as int].interfaces@[k],
                        q,
                    ) is None;
                assert(spec_iface_proto(
                    arena,
                    sc as int,
                    arena.classes@[class as int].interfaces@[k],
                    pq,
                ) is None);
                assert(spec_ifaces_fail(arena, class, scope, pq));
            }
            if spec_ifaces_fail(arena, class, scope, pq) {
                let k = choose|k: int|
                    0 <= k < arena.classes@[class as int].interfaces@.len() && spec_iface_proto(
                        arena,
                        sc as int,
                        arena.classes@[class as int].interfaces@[k],
                        pq,
                    ) is None;
                assert(spec_iface_proto(
                    arena,
                    sc as int,
                    arena.classes@[class as int].interfaces@[k],
                    q,
                ) is None);
                assert(spec_ifaces_fail(arena, class, scope, q));
            }
        },
        None => {},
    }
}

} // verus!
