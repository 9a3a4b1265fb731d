//! The object arena: the cycle-safe ownership substrate of the object
//! graph. Prototypes, constructors, scopes and instances reference each
//! other circularly, so objects live in one growable arena and refer to each
//! other by index; mutation always goes through an index-based lookup with
//! no live aliases, which keeps every write scoped.

use crate::class::Class;
use crate::function::FunctionObjectData;
use crate::names::QName;
use crate::object::Property;
use crate::object::ScriptObjectClass;
use crate::object::ScriptObjectData;
use crate::object::spec_find_prop;
use crate::scope::Scope;
use crate::value::Value;
use crate::value::opt_value_eq;
use crate::value::value_ok;
use vstd::prelude::*;

verus! {

/// The arena: every object, scope frame and loaded class of one virtual
/// machine instance.
pub struct Arena {
    /// The objects, in allocation order.
    pub objects: Vec<FunctionObjectData>,
    /// The scope frames, in allocation order.
    pub scopes: Vec<Scope>,
    /// The loaded classes the objects' class markers point into.
    pub classes: Vec<Class>,
}

impl Arena {
    /// What a single object must satisfy: the prototype link points at an
    /// earlier object (links are fixed at creation, so chains always end),
    /// the table is well formed against the arena, and the class marker
    /// points into the class list.
    pub open spec fn obj_wf(self, i: int) -> bool {
        &&& (match self.objects@[i].base.proto {
            Some(p) => p < i,
            None => true,
        })
        &&& self.objects@[i].base.table_wf(self.objects@.len() as nat)
        &&& (match self.objects@[i].base.class {
            ScriptObjectClass::ClassConstructor(c, _) => c < self.classes@.len(),
            ScriptObjectClass::InstancePrototype(c, _) => c < self.classes@.len(),
            ScriptObjectClass::NoClass => true,
        })
    }

    /// What a single scope frame must satisfy: the parent is an earlier
    /// frame and the values object exists.
    pub open spec fn scope_wf(self, s: int) -> bool {
        &&& (match self.scopes@[s].parent {
            Some(p) => p < s,
            None => true,
        })
        &&& self.scopes@[s].values < self.objects@.len()
    }

    /// The arena invariant.
    pub open spec fn wf(self) -> bool {
        &&& forall|i: int| 0 <= i < self.objects@.len() ==> #[trigger] self.obj_wf(i)
        &&& forall|s: int| 0 <= s < self.scopes@.len() ==> #[trigger] self.scope_wf(s)
    }

    /// A fresh, empty arena.
    pub fn new() -> (a: Arena)
        ensures
            a.wf(),
            a.objects@.len() == 0,
            a.scopes@.len() == 0,
            a.classes@.len() == 0,
    {
        Arena { objects: Vec::new(), scopes: Vec::new(), classes: Vec::new() }
    }

    /// Allocate an object. The data may already reference the object itself
    /// (its index is the arena's length at the call).
    pub fn push_object(&mut self, d: FunctionObjectData) -> (id: usize)
        requires
            old(self).wf(),
            match d.base.proto {
                Some(p) => p < old(self).objects@.len(),
                None => true,
            },
            d.base.table_wf((old(self).objects@.len() + 1) as nat),
            match d.base.class {
                ScriptObjectClass::ClassConstructor(c, _) => c < old(self).classes@.len(),
                ScriptObjectClass::InstancePrototype(c, _) => c < old(self).classes@.len(),
                ScriptObjectClass::NoClass => true,
            },
        ensures
            final(self).wf(),
            id == old(self).objects@.len(),
            final(self).objects@ == old(self).objects@.push(d),
            final(self).scopes == old(self).scopes,
            final(self).classes == old(self).classes,
    {
        let id = self.objects.len();
        self.objects.push(d);
        proof {
            assert forall|i: int| 0 <= i < self.objects@.len() implies #[trigger] self.obj_wf(
                i,
            ) by {
                if i < id {
                    assert(old(self).obj_wf(i));
                    crate::object::lemma_table_wf_mono(
                        old(self).objects@[i].base,
                        old(self).objects@.len() as nat,
                        self.objects@.len() as nat,
                    );
                }
            }
            assert forall|s: int| 0 <= s < self.scopes@.len() implies #[trigger] self.scope_wf(
                s,
            ) by {
                assert(old(self).scope_wf(s));
            }
        }
        id
    }

    /// A bare object: no prototype link, no class marker, nothing stored.
    pub fn bare_object(&mut self) -> (id: usize)
        requires
            old(self).wf(),
        ensures
            final(self).wf(),
            id == old(self).objects@.len(),
            final(self).objects@.len() == old(self).objects@.len() + 1,
            forall|j: int|
                0 <= j < old(self).objects@.len() ==> final(self).objects@[j] == old(
                    self,
                ).objects@[j],
            final(self).objects@[id as int].base.proto is None,
            final(self).objects@[id as int].base.class == ScriptObjectClass::NoClass,
            final(self).objects@[id as int].base.properties@.len() == 0,
            final(self).objects@[id as int].base.interfaces@.len() == 0,
            final(self).objects@[id as int].base.extensible,
            final(self).objects@[id as int].executable is None,
            final(self).scopes == old(self).scopes,
            final(self).classes == old(self).classes,
    {
        let d = FunctionObjectData {
            base: ScriptObjectData::base_new(None, ScriptObjectClass::NoClass),
            executable: None,
        };
        self.push_object(d)
    }

    /// A plain object whose prototype link is `proto`.
    pub fn object(&mut self, proto: Option<usize>) -> (id: usize)
        requires
            old(self).wf(),
            match proto {
                Some(p) => p < old(self).objects@.len(),
                None => true,
            },
        ensures
            final(self).wf(),
            id == old(self).objects@.len(),
            final(self).objects@.len() == old(self).objects@.len() + 1,
            forall|j: int|
                0 <= j < old(self).objects@.len() ==> final(self).objects@[j] == old(
                    self,
                ).objects@[j],
            final(self).objects@[id as int].base.proto == proto,
            final(self).objects@[id as int].base.class == ScriptObjectClass::NoClass,
            final(self).objects@[id as int].base.properties@.len() == 0,
            final(self).objects@[id as int].base.interfaces@.len() == 0,
            final(self).objects@[id as int].base.extensible,
            final(self).objects@[id as int].executable is None,
            final(self).scopes == old(self).scopes,
            final(self).classes == old(self).classes,
    {
        let d = FunctionObjectData {
            base: ScriptObjectData::base_new(proto, ScriptObjectClass::NoClass),
            executable: None,
        };
        self.push_object(d)
    }

    /// Allocate a scope frame over the given values object, enclosed by
    /// `parent`.
    pub fn alloc_scope(&mut self, parent: Option<usize>, values: usize) -> (s: usize)
        requires
            old(self).wf(),
            match parent {
                Some(p) => p < old(self).scopes@.len(),
                None => true,
            },
            values < old(self).objects@.len(),
        ensures
            final(self).wf(),
            s == old(self).scopes@.len(),
            final(self).scopes@ == old(self).scopes@.push(Scope { parent, values }),
            final(self).objects == old(self).objects,
            final(self).classes == old(self).classes,
    {
        let s = self.scopes.len();
        self.scopes.push(Scope { parent, values });
        proof {
            assert forall|i: int| 0 <= i < self.objects@.len() implies #[trigger] self.obj_wf(
                i,
            ) by {
                assert(old(self).obj_wf(i));
            }
            assert forall|t: int| 0 <= t < self.scopes@.len() implies #[trigger] self.scope_wf(
                t,
            ) by {
                if t < s {
                    assert(old(self).scope_wf(t));
                }
            }
        }
        s
    }

    /// Record a loaded class and return its index.
    pub fn alloc_class(&mut self, class: Class) -> (c: usize)
        requires
            old(self).wf(),
        ensures
            final(self).wf(),
            c == old(self).classes@.len(),
            final(self).classes@ == old(self).classes@.push(class),
            final(self).objects == old(self).objects,
            final(self).scopes == old(self).scopes,
    {
        let c = self.classes.len();
        self.classes.push(class);
        proof {
            assert forall|i: int| 0 <= i < self.objects@.len() implies #[trigger] self.obj_wf(
                i,
            ) by {
                assert(old(self).obj_wf(i));
            }
            assert forall|t: int| 0 <= t < self.scopes@.len() implies #[trigger] self.scope_wf(
                t,
            ) by {
                assert(old(self).scope_wf(t));
            }
        }
        c
    }

    /// What resolving `name` against one object's own table yields, without
    /// invocation: a stored value, the value in the named slot, the
    /// installed method's function object — and nothing for a computed
    /// property, which only the invoking read path resolves.
    pub open spec fn spec_get_own(d: ScriptObjectData, name: QName) -> Option<Value> {
        match spec_find_prop(d.properties@, name) {
            Some(Property::Stored { value, .. }) => Some(value),
            Some(Property::Slot { slot_id, .. }) => Some(d.slots@[slot_id as int]),
            Some(Property::Method { func, .. }) => Some(Value::Object(func)),
            Some(Property::Virtual { .. }) => None,
            None => None,
        }
    }

    /// What resolving `name` against `obj` and then its prototype chain
    /// yields, without invocation. An own entry of any kind stops the walk.
    pub open spec fn spec_get_property(self, obj: int, name: QName) -> Option<Value>
        decreases obj,
    {
        if obj < 0 || obj >= self.objects@.len() {
            None
        } else {
            let d = self.objects@[obj].base;
            if spec_find_prop(d.properties@, name) is Some {
                Arena::spec_get_own(d, name)
            } else {
                match d.proto {
                    Some(p) => if (p as int) < obj {
                        self.spec_get_property(p as int, name)
                    } else {
                        None
                    },
                    None => None,
                }
            }
        }
    }

    /// What resolving `name` against the scope chain at `scope` yields: the
    /// innermost frame whose values object resolves it wins.
    pub open spec fn spec_resolve(self, scope: int, name: QName) -> Option<Value>
        decreases scope,
    {
        if scope < 0 || scope >= self.scopes@.len() {
            None
        } else {
            let frame = self.scopes@[scope];
            match self.spec_get_property(frame.values as int, name) {
                Some(v) => Some(v),
                None => match frame.parent {
                    Some(p) => if (p as int) < scope {
                        self.spec_resolve(p as int, name)
                    } else {
                        None
                    },
                    None => None,
                },
            }
        }
    }

    /// In a well-formed arena, whatever the chain walk yields references an
    /// existing object.
    pub proof fn lemma_get_property_ok(self, obj: int, name: QName)
        requires
            self.wf(),
            0 <= obj < self.objects@.len(),
        ensures
            match self.spec_get_property(obj, name) {
                Some(v) => value_ok(v, self.objects@.len() as nat),
                None => true,
            },
        decreases obj,
    {
        assert(self.obj_wf(obj));
        let d = self.objects@[obj].base;
        if spec_find_prop(d.properties@, name) is Some {
            crate::object::lemma_find_index_prop(d.properties@, name);
        } else {
            match d.proto {
                Some(p) => {
                    self.lemma_get_property_ok(p as int, name);
                },
                None => {},
            }
        }
    }

    /// In a well-formed arena, whatever scope resolution yields references
    /// an existing object.
    pub proof fn lemma_resolve_ok(self, scope: int, name: QName)
        requires
            self.wf(),
            0 <= scope < self.scopes@.len(),
        ensures
            match self.spec_resolve(scope, name) {
                Some(v) => value_ok(v, self.objects@.len() as nat),
                None => true,
            },
        decreases scope,
    {
        assert(self.scope_wf(scope));
        let frame = self.scopes@[scope];
        self.lemma_get_property_ok(frame.values as int, name);
        match self.spec_resolve(scope, name) {
            Some(_) => {
                match frame.parent {
                    Some(p) => {
                        if self.spec_get_property(frame.values as int, name) is None {
                            self.lemma_resolve_ok(p as int, name);
                        }
                    },
                    None => {},
                }
            },
            None => {},
        }
    }

    /// Resolve `name` against `obj` and its prototype chain, without
    /// invocation.
    pub fn get_property(&self, obj: usize, name: &QName) -> (r: Option<Value>)
        requires
            self.wf(),
            obj < self.objects@.len(),
        ensures
            opt_value_eq(r, self.spec_get_property(obj as int, *name)),
        decreases obj,
    {
        proof {
            assert(self.obj_wf(obj as int));
        }
        let d = &self.objects[obj];
        let idx = d.base.find_index(name);
        proof {
            crate::object::lemma_find_index_prop(d.base.properties@, *name);
        }
        match idx {
            Some(i) => match &d.base.properties[i].prop {
                Property::Stored { value, .. } => Some(crate::value::value_clone(value)),
                Property::Slot { slot_id, .. } => Some(
                    crate::value::value_clone(&d.base.slots[*slot_id]),
                ),
                Property::Method { func, .. } => Some(Value::Object(*func)),
                Property::Virtual { .. } => None,
            },
            None => match d.base.proto {
                Some(p) => self.get_property(p, name),
                None => None,
            },
        }
    }
}

impl Arena {
    /// The chain walk sees names only up to name equality.
    pub proof fn lemma_get_property_respects_eq(self, obj: int, n1: QName, n2: QName)
        requires
            n1.spec_eq(n2),
            n2.spec_eq(n1),
        ensures
            self.spec_get_property(obj, n1) == self.spec_get_property(obj, n2),
        decreases obj,
    {
        if 0 <= obj < self.objects@.len() {
            let d = self.objects@[obj].base;
            crate::object::lemma_find_respects_eq(d.properties@, n1, n2);
            match d.proto {
                Some(p) => {
                    if (p as int) < obj {
                        self.lemma_get_property_respects_eq(p as int, n1, n2);
                    }
                },
                None => {},
            }
        }
    }
}

/// Rebuilding one object with the same prototype link, the same class
/// marker and a still well-formed table keeps the arena well formed.
pub proof fn lemma_wf_update_object(pre: Arena, post: Arena, i: int)
    requires
        pre.wf(),
        0 <= i < pre.objects@.len(),
        post.objects@.len() == pre.objects@.len(),
        post.scopes == pre.scopes,
        post.classes == pre.classes,
        forall|j: int|
            0 <= j < pre.objects@.len() && j != i ==> post.objects@[j] == pre.objects@[j],
        post.objects@[i].base.proto == pre.objects@[i].base.proto,
        post.objects@[i].base.class == pre.objects@[i].base.class,
        post.objects@[i].base.table_wf(post.objects@.len() as nat),
    ensures
        post.wf(),
{
    assert forall|j: int| 0 <= j < post.objects@.len() implies #[trigger] post.obj_wf(j) by {
        assert(pre.obj_wf(j));
        if j != i {
            assert(post.objects@[j] == pre.objects@[j]);
        }
    }
    assert forall|s: int| 0 <= s < post.scopes@.len() implies #[trigger] post.scope_wf(s) by {
        assert(pre.scope_wf(s));
    }
}

} // verus!
