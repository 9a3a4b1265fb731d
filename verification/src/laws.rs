//! The laws of the invocation and property model that span more than one
//! function, stated and proved once: mutual constructor/prototype linkage,
//! interface propagation, receiver-binding idempotence and the
//! install/assign/read round trip. The not-callable rule is stated
//! directly in the contracts of `call`, `construct` and `derive`: a fresh
//! instance carries no executable, and calling an object without one
//! reports the not-callable error whatever the arguments.

use crate::arena::Arena;
use crate::error::Error;
use crate::function::Executable;
use crate::function::ExecOutcome;
use crate::function::arena_prop_written;
use crate::function::exec_post;
use crate::function::get_local_post;
use crate::function::write_local_post;
use crate::globals::UpdateContext;
use crate::names::QName;
use crate::object::Attributes;
use crate::object::Property;
use crate::object::spec_find_prop;
use crate::value::Value;
use crate::value::value_eq;
use vstd::prelude::*;

verus! {

/// Mutual linkage: for every successfully derived class, the constructor's
/// `prototype` property is the instance prototype, and the instance
/// prototype's `constructor` property is the constructor, immediately
/// after derivation.
pub proof fn lemma_mutual_linkage(
    old_arena: Arena,
    new_arena: Arena,
    class: usize,
    base_class: Option<usize>,
    scope: Option<usize>,
    fn_proto: usize,
    class_constr_proto: usize,
    proto_name: QName,
    constructor_name: QName,
    constr: usize,
    static_init: usize,
)
    requires
        crate::names::is_prototype_qname(proto_name),
        crate::names::is_constructor_qname(constructor_name),
        crate::function::from_class_case(
            old_arena,
            new_arena,
            class,
            base_class,
            scope,
            fn_proto,
            class_constr_proto,
            proto_name,
            Ok((constr, static_init)),
        ),
    ensures
        spec_find_prop(new_arena.objects@[constr as int].base.properties@, proto_name) == Some(
            Property::Stored {
                value: Value::Object(old_arena.objects@.len() as usize),
                attributes: Attributes::spec_dynamic(),
            },
        ),
        spec_find_prop(
            new_arena.objects@[old_arena.objects@.len() as int].base.properties@,
            constructor_name,
        ) == Some(
            Property::Stored { value: Value::Object(constr), attributes: Attributes::spec_dynamic() },
        ),
{
}

/// Interface propagation: a successfully derived class's instance
/// prototype carries exactly the prototypes of the interfaces the class
/// declares, in declaration order, and an empty — not merely unset — list
/// when it declares none or was derived without a scope.
pub proof fn lemma_interface_propagation(
    old_arena: Arena,
    new_arena: Arena,
    class: usize,
    base_class: Option<usize>,
    scope: Option<usize>,
    fn_proto: usize,
    class_constr_proto: usize,
    proto_name: QName,
    constr: usize,
    static_init: usize,
)
    requires
        crate::names::is_prototype_qname(proto_name),
        crate::function::from_class_case(
            old_arena,
            new_arena,
            class,
            base_class,
            scope,
            fn_proto,
            class_constr_proto,
            proto_name,
            Ok((constr, static_init)),
        ),
    ensures
        match scope {
            Some(sc) => {
                let ifaces = new_arena.objects@[
                    old_arena.objects@.len() as int
                ].base.interfaces@;
                &&& ifaces.len() == old_arena.classes@[class as int].interfaces@.len()
                &&& forall|k: int|
                    0 <= k < ifaces.len() ==> Some(#[trigger] ifaces[k])
                        == crate::function::spec_iface_proto(
                        old_arena,
                        sc as int,
                        old_arena.classes@[class as int].interfaces@[k],
                        proto_name,
                    )
            },
            None => new_arena.objects@[
                old_arena.objects@.len() as int
            ].base.interfaces@.len() == 0,
        },
{
}

/// Receiver binding is idempotent: once an executable is bound, the
/// effective receiver is the bound one, whatever override any call
/// supplies — two calls with different overrides resolve the same
/// receiver.
pub proof fn lemma_receiver_binding_idempotent(
    e: Executable,
    override1: Option<usize>,
    override2: Option<usize>,
)
    requires
        e.bound_receiver() is Some,
    ensures
        e.spec_effective_receiver(override1) == e.spec_effective_receiver(override2),
        e.spec_effective_receiver(override1) == e.bound_receiver(),
{
}

/// A bound bytecode executable hands the interpreter loop activation
/// records with the same receiver — the bound one — however the two calls
/// chose their override receivers.
pub proof fn lemma_bound_activation_receiver(
    e: Executable,
    arena1: Arena,
    arena2: Arena,
    ctx1a: UpdateContext,
    ctx1b: UpdateContext,
    ctx2a: UpdateContext,
    ctx2b: UpdateContext,
    override1: Option<usize>,
    override2: Option<usize>,
    args1: Seq<Value>,
    args2: Seq<Value>,
    base_proto1: Option<usize>,
    base_proto2: Option<usize>,
    out1: Result<ExecOutcome, Error>,
    out2: Result<ExecOutcome, Error>,
)
    requires
        e is Action,
        e.bound_receiver() is Some,
        exec_post(e, arena1, ctx1a, ctx1b, override1, args1, base_proto1, out1),
        exec_post(e, arena2, ctx2a, ctx2b, override2, args2, base_proto2, out2),
    ensures
        match (out1, out2) {
            (Ok(ExecOutcome::RunBytecode(a1)), Ok(ExecOutcome::RunBytecode(a2))) => a1.receiver
                == a2.receiver && a1.receiver == e.bound_receiver(),
            _ => false,
        },
{
}

/// Round trip, first leg: after a dynamic property is installed, reading
/// the same name through the local read path yields the installed value.
pub proof fn lemma_install_then_get(
    old_arena: Arena,
    new_arena: Arena,
    id: usize,
    name: QName,
    value: Value,
    ctx_before: UpdateContext,
    ctx_after: UpdateContext,
    read: Result<ExecOutcome, Error>,
)
    requires
        arena_prop_written(
            old_arena,
            new_arena,
            id,
            name,
            Property::Stored { value, attributes: Attributes::spec_dynamic() },
        ),
        get_local_post(new_arena, id, ctx_before, ctx_after, name, read),
    ensures
        match read {
            Ok(ExecOutcome::Done(v)) => value_eq(v, value),
            _ => false,
        },
{
}

/// Round trip, second leg: assigning an overwritable stored property
/// through the general path succeeds, and a subsequent read yields the new
/// value.
pub proof fn lemma_set_then_get(
    arena_before: Arena,
    arena_after: Arena,
    id: usize,
    name: QName,
    old_value: Value,
    new_value: Value,
    set_ctx_before: UpdateContext,
    set_ctx_after: UpdateContext,
    written: Result<ExecOutcome, Error>,
    get_ctx_before: UpdateContext,
    get_ctx_after: UpdateContext,
    read: Result<ExecOutcome, Error>,
)
    requires
        spec_find_prop(arena_before.objects@[id as int].base.properties@, name) == Some(
            Property::Stored { value: old_value, attributes: Attributes::spec_dynamic() },
        ),
        write_local_post(
            arena_before,
            arena_after,
            id,
            set_ctx_before,
            set_ctx_after,
            name,
            new_value,
            true,
            written,
        ),
        get_local_post(arena_after, id, get_ctx_before, get_ctx_after, name, read),
    ensures
        written is Ok,
        match read {
            Ok(ExecOutcome::Done(v)) => value_eq(v, new_value),
            _ => false,
        },
{
}

/// The chosen behaviour for a property that is not overwritable: the
/// general assignment path reports an error and changes nothing, so a
/// subsequent read still yields the old value.
pub proof fn lemma_set_not_overwritable(
    arena_before: Arena,
    arena_after: Arena,
    id: usize,
    name: QName,
    old_value: Value,
    attrs: Attributes,
    new_value: Value,
    set_ctx_before: UpdateContext,
    set_ctx_after: UpdateContext,
    written: Result<ExecOutcome, Error>,
    get_ctx_before: UpdateContext,
    get_ctx_after: UpdateContext,
    read: Result<ExecOutcome, Error>,
)
    requires
        !attrs.overwritable,
        spec_find_prop(arena_before.objects@[id as int].base.properties@, name) == Some(
            Property::Stored { value: old_value, attributes: attrs },
        ),
        write_local_post(
            arena_before,
            arena_after,
            id,
            set_ctx_before,
            set_ctx_after,
            name,
            new_value,
            true,
            written,
        ),
        get_local_post(arena_after, id, get_ctx_before, get_ctx_after, name, read),
    ensures
        written matches Err(Error::PropertyNotOverwritable),
        arena_after == arena_before,
        match read {
            Ok(ExecOutcome::Done(v)) => value_eq(v, old_value),
            _ => false,
        },
{
}

} // verus!
