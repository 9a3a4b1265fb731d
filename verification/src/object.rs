//! The trait/slot table every object variant delegates to: a mapping from
//! qualified names to stored values, fixed numbered slots, installed methods
//! or computed accessors, together with per-property flags, the prototype
//! link, the class marker and the interface list.
//!
//! Lookup is first-match in insertion order; installers update the first
//! matching entry in place or append, so a name never gains a second entry.

use crate::function::Executable;
use crate::names::QName;
use crate::value::Value;
use crate::value::value_ok;
use vstd::prelude::*;

verus! {

/// Per-property flags.
#[derive(Clone, Copy, Debug, PartialEq, Eq, Structural)]
pub struct Attributes {
    /// Whether enumeration yields the property.
    pub enumerable: bool,
    /// Whether the general assignment path may replace the property's value.
    pub overwritable: bool,
}

impl Attributes {
    /// The flags a dynamic property gets: enumerable and overwritable.
    pub open spec fn spec_dynamic() -> Attributes {
        Attributes { enumerable: true, overwritable: true }
    }

    /// The flags a declared member gets: hidden from enumeration and fixed.
    pub open spec fn spec_declared() -> Attributes {
        Attributes { enumerable: false, overwritable: false }
    }

    /// The flags a dynamic property gets: enumerable and overwritable.
    pub fn dynamic() -> (a: Attributes)
        ensures
            a == Attributes::spec_dynamic(),
    {
        Attributes { enumerable: true, overwritable: true }
    }

    /// The flags a declared member gets: hidden from enumeration and fixed.
    pub fn declared() -> (a: Attributes)
        ensures
            a == Attributes::spec_declared(),
    {
        Attributes { enumerable: false, overwritable: false }
    }
}

/// One resolvable member of an object.
#[derive(Clone, Debug)]
pub enum Property {
    /// A name-indexed value.
    Stored { value: Value, attributes: Attributes },
    /// A fixed numbered slot in the object's slot table.
    Slot { slot_id: usize, attributes: Attributes },
    /// An installed method, resolvable by name and by dispatch id.
    Method { disp_id: usize, func: usize, attributes: Attributes },
    /// A computed property: reading invokes the getter, assigning invokes
    /// the setter.
    Virtual { getter: Option<Executable>, setter: Option<Executable>, attributes: Attributes },
}

impl Property {
    /// The flags of the property, whatever its kind.
    pub open spec fn attrs(self) -> Attributes {
        match self {
            Property::Stored { attributes, .. } => attributes,
            Property::Slot { attributes, .. } => attributes,
            Property::Method { attributes, .. } => attributes,
            Property::Virtual { attributes, .. } => attributes,
        }
    }

    /// The same property with different flags.
    pub open spec fn spec_with_attrs(self, a: Attributes) -> Property {
        match self {
            Property::Stored { value, .. } => Property::Stored { value, attributes: a },
            Property::Slot { slot_id, .. } => Property::Slot { slot_id, attributes: a },
            Property::Method { disp_id, func, .. } => Property::Method {
                disp_id,
                func,
                attributes: a,
            },
            Property::Virtual { getter, setter, .. } => Property::Virtual {
                getter,
                setter,
                attributes: a,
            },
        }
    }
}

/// A named entry of the table.
#[derive(Clone, Debug)]
pub struct PropertyEntry {
    pub name: QName,
    pub prop: Property,
}

/// What kind of object this is: a plain object, the instance prototype of a
/// declared class, or a class constructor. The latter two record the class
/// and the scope the class was defined in.
#[derive(Clone, Copy, Debug, PartialEq, Eq, Structural)]
pub enum ScriptObjectClass {
    /// A plain object with no class identity.
    NoClass,
    /// The constructor of the recorded class.
    ClassConstructor(usize, Option<usize>),
    /// The instance prototype of the recorded class.
    InstancePrototype(usize, Option<usize>),
}

/// The first entry for `name`, searched in insertion order.
pub open spec fn spec_find_prop(props: Seq<PropertyEntry>, name: QName) -> Option<Property>
    decreases props.len(),
{
    if props.len() == 0 {
        None
    } else if props[0].name.spec_eq(name) {
        Some(props[0].prop)
    } else {
        spec_find_prop(props.subrange(1, props.len() as int), name)
    }
}

/// The index of the first entry for `name`, searched in insertion order.
pub open spec fn spec_find_index(props: Seq<PropertyEntry>, name: QName) -> Option<int>
    decreases props.len(),
{
    if props.len() == 0 {
        None
    } else if props[0].name.spec_eq(name) {
        Some(0int)
    } else {
        match spec_find_index(props.subrange(1, props.len() as int), name) {
            Some(i) => Some(i + 1),
            None => None,
        }
    }
}

/// The index found always carries the property found.
pub proof fn lemma_find_index_prop(props: Seq<PropertyEntry>, name: QName)
    ensures
        match spec_find_index(props, name) {
            Some(i) => 0 <= i < props.len() && props[i].name.spec_eq(name) && spec_find_prop(
                props,
                name,
            ) == Some(props[i].prop) && (forall|j: int|
                0 <= j < i ==> !props[j].name.spec_eq(name)),
            None => spec_find_prop(props, name) is None && (forall|j: int|
                0 <= j < props.len() ==> !props[j].name.spec_eq(name)),
        },
    decreases props.len(),
{
    if props.len() == 0 {
    } else if props[0].name.spec_eq(name) {
    } else {
        let rest = props.subrange(1, props.len() as int);
        lemma_find_index_prop(rest, name);
        assert forall|j: int| 1 <= j < props.len() implies #[trigger] props[j] == rest[j - 1] by {
            assert(rest[j - 1] == props[j]);
        }
        match spec_find_index(props, name) {
            Some(i) => {
                assert(spec_find_index(rest, name) == Some(i - 1));
                assert(props[i] == rest[i - 1]);
            },
            None => {},
        }
    }
}

/// Updating the entry at the first match of `name` with an entry of a name
/// equal to `name` moves lookup of `name` to the new property and leaves
/// every other name's lookup unchanged.
pub proof fn lemma_find_after_update(props: Seq<PropertyEntry>, name: QName, e: PropertyEntry)
    requires
        spec_find_index(props, name) is Some,
        e.name.spec_eq(name),
    ensures
        spec_find_prop(props.update(spec_find_index(props, name).unwrap(), e), name) == Some(
            e.prop,
        ),
        forall|other: QName|
            !other.spec_eq(name) && !name.spec_eq(other) ==> #[trigger] spec_find_prop(
                props.update(spec_find_index(props, name).unwrap(), e),
                other,
            ) == spec_find_prop(props, other),
    decreases props.len(),
{
    let i = spec_find_index(props, name).unwrap();
    lemma_find_index_prop(props, name);
    let updated = props.update(i, e);
    if props[0].name.spec_eq(name) {
        assert(i == 0);
        assert(updated[0] == e);
        assert(spec_find_prop(updated, name) == Some(e.prop));
        assert forall|other: QName| !other.spec_eq(name) && !name.spec_eq(other) implies
            #[trigger] spec_find_prop(updated, other) == spec_find_prop(props, other) by {
            if e.name.spec_eq(other) {
                crate::names::lemma_qname_eq_sym(e.name, name);
                crate::names::lemma_qname_eq_trans(name, e.name, other);
            }
            if props[0].name.spec_eq(other) {
                crate::names::lemma_qname_eq_sym(props[0].name, name);
                crate::names::lemma_qname_eq_trans(name, props[0].name, other);
            }
            assert(updated.subrange(1, updated.len() as int) =~= props.subrange(
                1,
                props.len() as int,
            ));
        }
    } else {
        let rest = props.subrange(1, props.len() as int);
        lemma_find_index_prop(rest, name);
        lemma_find_after_update(rest, name, e);
        assert(updated[0] == props[0]);
        assert(updated.subrange(1, updated.len() as int) =~= rest.update(i - 1, e));
        assert(spec_find_prop(updated, name) == spec_find_prop(rest.update(i - 1, e), name));
        assert forall|other: QName| !other.spec_eq(name) && !name.spec_eq(other) implies
            #[trigger] spec_find_prop(updated, other) == spec_find_prop(props, other) by {
            if props[0].name.spec_eq(other) {
                assert(spec_find_prop(updated, other) == Some(props[0].prop));
                assert(spec_find_prop(props, other) == Some(props[0].prop));
            } else {
                assert(spec_find_prop(updated, other) == spec_find_prop(
                    rest.update(i - 1, e),
                    other,
                ));
                assert(spec_find_prop(props, other) == spec_find_prop(rest, other));
            }
        }
    }
}

/// Appending an entry for a name that has no entry makes lookup of that name
/// yield the appended property and leaves every other name's lookup
/// unchanged.
pub proof fn lemma_find_after_push(props: Seq<PropertyEntry>, name: QName, e: PropertyEntry)
    requires
        spec_find_prop(props, name) is None,
        e.name.spec_eq(name),
    ensures
        spec_find_prop(props.push(e), name) == Some(e.prop),
        forall|other: QName|
            !other.spec_eq(name) && !name.spec_eq(other) ==> #[trigger] spec_find_prop(
                props.push(e),
                other,
            ) == spec_find_prop(props, other),
    decreases props.len(),
{
    let pushed = props.push(e);
    if props.len() == 0 {
        assert(pushed[0] == e);
        assert(spec_find_prop(pushed, name) == Some(e.prop));
        assert forall|other: QName| !other.spec_eq(name) && !name.spec_eq(other) implies
            #[trigger] spec_find_prop(pushed, other) == spec_find_prop(props, other) by {
            if e.name.spec_eq(other) {
                crate::names::lemma_qname_eq_sym(e.name, name);
                crate::names::lemma_qname_eq_trans(name, e.name, other);
                assert(false);
            } else {
                assert(pushed.subrange(1, pushed.len() as int) =~= Seq::<
                    PropertyEntry,
                >::empty());
                assert(spec_find_prop(Seq::<PropertyEntry>::empty(), other) is None);
                assert(spec_find_prop(pushed, other) is None);
                assert(spec_find_prop(props, other) is None);
            }
        }
    } else {
        let rest = props.subrange(1, props.len() as int);
        lemma_find_after_push(rest, name, e);
        assert(pushed[0] == props[0]);
        assert(pushed.subrange(1, pushed.len() as int) =~= rest.push(e));
        assert(!props[0].name.spec_eq(name));
        assert(spec_find_prop(pushed, name) == spec_find_prop(rest.push(e), name));
        assert forall|other: QName| !other.spec_eq(name) && !name.spec_eq(other) implies
            #[trigger] spec_find_prop(pushed, other) == spec_find_prop(props, other) by {
            if props[0].name.spec_eq(other) {
                assert(spec_find_prop(pushed, other) == Some(props[0].prop));
                assert(spec_find_prop(props, other) == Some(props[0].prop));
            } else {
                assert(spec_find_prop(pushed, other) == spec_find_prop(rest.push(e), other));
                assert(spec_find_prop(props, other) == spec_find_prop(rest, other));
            }
        }
    }
}

/// The enumerable entry at rank `index` among the entries from `pos` on, in
/// insertion order.
pub open spec fn spec_enumerant_from(props: Seq<PropertyEntry>, pos: int, index: int) -> Option<
    QName,
>
    decreases props.len() - pos,
{
    if pos < 0 || pos >= props.len() {
        None
    } else if props[pos].prop.attrs().enumerable {
        if index == 0 {
            Some(props[pos].name)
        } else {
            spec_enumerant_from(props, pos + 1, index - 1)
        }
    } else {
        spec_enumerant_from(props, pos + 1, index)
    }
}

/// The name of the enumerable own property at rank `index`, in insertion
/// order.
pub open spec fn spec_enumerant(props: Seq<PropertyEntry>, index: int) -> Option<QName> {
    spec_enumerant_from(props, 0, index)
}

/// The base object data every variant delegates to.
#[derive(Clone, Debug)]
pub struct ScriptObjectData {
    /// The named members, in insertion order, one entry per name.
    pub properties: Vec<PropertyEntry>,
    /// The fixed numbered slots.
    pub slots: Vec<Value>,
    /// The installed methods, by dispatch id.
    pub methods: Vec<Option<usize>>,
    /// The prototype link, if any.
    pub proto: Option<usize>,
    /// The class marker.
    pub class: ScriptObjectClass,
    /// The prototypes of the interfaces attached at derivation time.
    pub interfaces: Vec<usize>,
    /// Whether new dynamic properties may be installed.
    pub extensible: bool,
}

impl ScriptObjectData {
    /// Every slot-kind entry points into the slot table, and every value the
    /// table holds points into an arena of `len` objects.
    pub open spec fn table_wf(self, len: nat) -> bool {
        &&& forall|i: int|
            0 <= i < self.properties@.len() ==> match #[trigger] self.properties@[i].prop {
                Property::Slot { slot_id, .. } => slot_id < self.slots@.len(),
                Property::Stored { value, .. } => value_ok(value, len),
                Property::Method { func, .. } => func < len,
                _ => true,
            }
        &&& forall|i: int| 0 <= i < self.slots@.len() ==> value_ok(#[trigger] self.slots@[i], len)
    }

    /// Fresh object data with the given prototype link and class marker.
    pub fn base_new(proto: Option<usize>, class: ScriptObjectClass) -> (d: ScriptObjectData)
        ensures
            d.properties@.len() == 0,
            d.slots@.len() == 0,
            d.methods@.len() == 0,
            d.proto == proto,
            d.class == class,
            d.interfaces@.len() == 0,
            d.extensible,
            forall|len: nat| d.table_wf(len),
    {
        ScriptObjectData {
            properties: Vec::new(),
            slots: Vec::new(),
            methods: Vec::new(),
            proto,
            class,
            interfaces: Vec::new(),
            extensible: true,
        }
    }

    /// The index of the first entry for `name`, or `None`.
    pub fn find_index(&self, name: &QName) -> (r: Option<usize>)
        ensures
            match r {
                Some(i) => spec_find_index(self.properties@, *name) == Some(i as int),
                None => spec_find_index(self.properties@, *name) is None,
            },
    {
        let n = self.properties.len();
        let mut i: usize = 0;
        while i < n
            invariant
                n == self.properties@.len(),
                i <= n,
                forall|j: int| 0 <= j < i ==> !self.properties@[j].name.spec_eq(*name),
            decreases n - i,
        {
            if crate::names::qname_matches(&self.properties[i].name, name) {
                proof {
                    lemma_find_index_prop(self.properties@, *name);
                }
                return Some(i);
            }
            i += 1;
        }
        proof {
            lemma_find_index_prop(self.properties@, *name);
        }
        None
    }

    /// Define `name` as the given property, overwriting any earlier entry
    /// for it regardless of flags. This is the definition path used while an
    /// object is being populated; it does not respect overwritability.
    pub fn define_property(&mut self, name: QName, prop: Property, arena_len: Ghost<nat>)
        requires
            old(self).table_wf(arena_len@),
            match prop {
                Property::Slot { slot_id, .. } => slot_id < old(self).slots@.len(),
                Property::Stored { value, .. } => value_ok(value, arena_len@),
                Property::Method { func, .. } => func < arena_len@,
                _ => true,
            },
        ensures
            final(self).table_wf(arena_len@),
            spec_find_prop(final(self).properties@, name) == Some(prop),
            forall|other: QName|
                !other.spec_eq(name) && !name.spec_eq(other) ==> #[trigger] spec_find_prop(
                    final(self).properties@,
                    other,
                ) == spec_find_prop(old(self).properties@, other),
            final(self).slots == old(self).slots,
            final(self).methods == old(self).methods,
            final(self).proto == old(self).proto,
            final(self).class == old(self).class,
            final(self).interfaces == old(self).interfaces,
            final(self).extensible == old(self).extensible,
    {
        let ghost old_props = self.properties@;
        let idx = self.find_index(&name);
        let entry = PropertyEntry { name, prop };
        proof {
            assert(entry.name.spec_eq(entry.name));
        }
        match idx {
            Some(i) => {
                proof {
                    lemma_find_index_prop(old_props, entry.name);
                    lemma_find_after_update(old_props, entry.name, entry);
                }
                self.properties[i] = entry;
            },
            None => {
                proof {
                    lemma_find_index_prop(old_props, entry.name);
                    lemma_find_after_push(old_props, entry.name, entry);
                }
                self.properties.push(entry);
            },
        }
    }

    /// Install a dynamic property: the general extension path. Fails, and
    /// changes nothing, when the object does not accept new properties.
    pub fn install_dynamic_property(&mut self, name: QName, value: Value, arena_len: Ghost<nat>)
        -> (r: Result<(), crate::error::Error>)
        requires
            old(self).table_wf(arena_len@),
            value_ok(value, arena_len@),
        ensures
            final(self).table_wf(arena_len@),
            final(self).slots == old(self).slots,
            final(self).methods == old(self).methods,
            final(self).proto == old(self).proto,
            final(self).class == old(self).class,
            final(self).interfaces == old(self).interfaces,
            final(self).extensible == old(self).extensible,
            old(self).extensible ==> r is Ok && spec_find_prop(final(self).properties@, name)
                == Some(
                Property::Stored { value, attributes: Attributes::spec_dynamic() },
            ) && (forall|other: QName|
                !other.spec_eq(name) && !name.spec_eq(other) ==> #[trigger] spec_find_prop(
                    final(self).properties@,
                    other,
                ) == spec_find_prop(old(self).properties@, other)),
            !old(self).extensible ==> (r matches Err(crate::error::Error::ObjectSealed)),
            !old(self).extensible ==> *final(self) == *old(self),
    {
        if !self.extensible {
            return Err(crate::error::Error::ObjectSealed);
        }
        self.define_property(
            name,
            Property::Stored { value, attributes: Attributes::dynamic() },
            arena_len,
        );
        Ok(())
    }

    /// Read the numbered slot `id`.
    pub fn get_slot(&self, id: usize) -> (r: Result<Value, crate::error::Error>)
        ensures
            match r {
                Ok(v) => id < self.slots@.len() && crate::value::value_eq(v, self.slots@[id as int]),
                Err(e) => id >= self.slots@.len() && e matches
                    crate::error::Error::SlotOutOfBounds,
            },
    {
        if id < self.slots.len() {
            Ok(crate::value::value_clone(&self.slots[id]))
        } else {
            Err(crate::error::Error::SlotOutOfBounds)
        }
    }

    /// Write the numbered slot `id` through the general assignment path.
    pub fn set_slot(&mut self, id: usize, value: Value, arena_len: Ghost<nat>) -> (r: Result<
        (),
        crate::error::Error,
    >)
        requires
            old(self).table_wf(arena_len@),
            value_ok(value, arena_len@),
        ensures
            final(self).table_wf(arena_len@),
            final(self).properties == old(self).properties,
            final(self).methods == old(self).methods,
            final(self).proto == old(self).proto,
            final(self).class == old(self).class,
            final(self).interfaces == old(self).interfaces,
            final(self).extensible == old(self).extensible,
            id < old(self).slots@.len() ==> r is Ok && final(self).slots@ == old(
                self,
            ).slots@.update(id as int, value),
            id >= old(self).slots@.len() ==> (r matches Err(
                crate::error::Error::SlotOutOfBounds,
            )),
            id >= old(self).slots@.len() ==> *final(self) == *old(self),
    {
        if id < self.slots.len() {
            self.slots[id] = value;
            Ok(())
        } else {
            Err(crate::error::Error::SlotOutOfBounds)
        }
    }

    /// Write the numbered slot `id` through the construction path. In this
    /// table the two writes coincide; they are distinct operations because
    /// the construction path is used exactly once per declared member.
    pub fn init_slot(&mut self, id: usize, value: Value, arena_len: Ghost<nat>) -> (r: Result<
        (),
        crate::error::Error,
    >)
        requires
            old(self).table_wf(arena_len@),
            value_ok(value, arena_len@),
        ensures
            final(self).table_wf(arena_len@),
            final(self).properties == old(self).properties,
            final(self).methods == old(self).methods,
            final(self).proto == old(self).proto,
            final(self).class == old(self).class,
            final(self).interfaces == old(self).interfaces,
            final(self).extensible == old(self).extensible,
            id < old(self).slots@.len() ==> r is Ok && final(self).slots@ == old(
                self,
            ).slots@.update(id as int, value),
            id >= old(self).slots@.len() ==> (r matches Err(
                crate::error::Error::SlotOutOfBounds,
            )),
            id >= old(self).slots@.len() ==> *final(self) == *old(self),
    {
        self.set_slot(id, value, arena_len)
    }

    /// The installed method with dispatch id `id`.
    pub fn get_method(&self, id: usize) -> (r: Option<usize>)
        ensures
            r == if id < self.methods@.len() {
                self.methods@[id as int]
            } else {
                None::<usize>
            },
    {
        if id < self.methods.len() {
            self.methods[id]
        } else {
            None
        }
    }

    /// Grow the slot table with `Undefined` so that slot `id` exists, then
    /// bind `name` to it and store `value` in it.
    pub fn install_slot_property(
        &mut self,
        name: QName,
        id: usize,
        value: Value,
        attributes: Attributes,
        arena_len: Ghost<nat>,
    )
        requires
            old(self).table_wf(arena_len@),
            value_ok(value, arena_len@),
            id < usize::MAX,
        ensures
            final(self).table_wf(arena_len@),
            final(self).slots@.len() >= id + 1,
            final(self).slots@[id as int] == value,
            spec_find_prop(final(self).properties@, name) == Some(
                Property::Slot { slot_id: id, attributes },
            ),
            forall|other: QName|
                !other.spec_eq(name) && !name.spec_eq(other) ==> #[trigger] spec_find_prop(
                    final(self).properties@,
                    other,
                ) == spec_find_prop(old(self).properties@, other),
            final(self).methods == old(self).methods,
            final(self).proto == old(self).proto,
            final(self).class == old(self).class,
            final(self).interfaces == old(self).interfaces,
            final(self).extensible == old(self).extensible,
    {
        while self.slots.len() <= id
            invariant
                self.table_wf(arena_len@),
                self.properties == old(self).properties,
                self.methods == old(self).methods,
                self.proto == old(self).proto,
                self.class == old(self).class,
                self.interfaces == old(self).interfaces,
                self.extensible == old(self).extensible,
                id < usize::MAX,
            decreases id + 1 - self.slots.len(),
        {
            self.slots.push(Value::Undefined);
        }
        let _ = self.set_slot(id, value, arena_len);
        self.define_property(name, Property::Slot { slot_id: id, attributes }, arena_len);
    }

    /// Bind `name` to a fresh or existing slot `id` holding `value`, as a
    /// declared member.
    pub fn install_slot(&mut self, name: QName, id: usize, value: Value, arena_len: Ghost<nat>)
        requires
            old(self).table_wf(arena_len@),
            value_ok(value, arena_len@),
            id < usize::MAX,
        ensures
            final(self).table_wf(arena_len@),
            final(self).slots@.len() >= id + 1,
            final(self).slots@[id as int] == value,
            spec_find_prop(final(self).properties@, name) == Some(
                Property::Slot {
                    slot_id: id,
                    attributes: Attributes { enumerable: false, overwritable: true },
                },
            ),
            forall|other: QName|
                !other.spec_eq(name) && !name.spec_eq(other) ==> #[trigger] spec_find_prop(
                    final(self).properties@,
                    other,
                ) == spec_find_prop(old(self).properties@, other),
            final(self).proto == old(self).proto,
            final(self).class == old(self).class,
            final(self).interfaces == old(self).interfaces,
            final(self).extensible == old(self).extensible,
    {
        self.install_slot_property(
            name,
            id,
            value,
            Attributes { enumerable: false, overwritable: true },
            arena_len,
        );
    }

    /// Bind `name` to slot `id` holding `value`, fixed against the general
    /// assignment path.
    pub fn install_const(&mut self, name: QName, id: usize, value: Value, arena_len: Ghost<nat>)
        requires
            old(self).table_wf(arena_len@),
            value_ok(value, arena_len@),
            id < usize::MAX,
        ensures
            final(self).table_wf(arena_len@),
            final(self).slots@.len() >= id + 1,
            final(self).slots@[id as int] == value,
            spec_find_prop(final(self).properties@, name) == Some(
                Property::Slot {
                    slot_id: id,
                    attributes: Attributes { enumerable: false, overwritable: false },
                },
            ),
            forall|other: QName|
                !other.spec_eq(name) && !name.spec_eq(other) ==> #[trigger] spec_find_prop(
                    final(self).properties@,
                    other,
                ) == spec_find_prop(old(self).properties@, other),
            final(self).proto == old(self).proto,
            final(self).class == old(self).class,
            final(self).interfaces == old(self).interfaces,
            final(self).extensible == old(self).extensible,
    {
        self.install_slot_property(
            name,
            id,
            value,
            Attributes { enumerable: false, overwritable: false },
            arena_len,
        );
    }

    /// Install a method under `name` with dispatch id `disp_id`, resolvable
    /// through both.
    pub fn install_method(&mut self, name: QName, disp_id: usize, func: usize, arena_len: Ghost<
        nat,
    >)
        requires
            old(self).table_wf(arena_len@),
            disp_id < usize::MAX,
            func < arena_len@,
        ensures
            final(self).table_wf(arena_len@),
            final(self).methods@.len() >= disp_id + 1,
            final(self).methods@[disp_id as int] == Some(func),
            spec_find_prop(final(self).properties@, name) == Some(
                Property::Method { disp_id, func, attributes: Attributes::spec_declared() },
            ),
            forall|other: QName|
                !other.spec_eq(name) && !name.spec_eq(other) ==> #[trigger] spec_find_prop(
                    final(self).properties@,
                    other,
                ) == spec_find_prop(old(self).properties@, other),
            final(self).slots == old(self).slots,
            final(self).proto == old(self).proto,
            final(self).class == old(self).class,
            final(self).interfaces == old(self).interfaces,
            final(self).extensible == old(self).extensible,
    {
        while self.methods.len() <= disp_id
            invariant
                self.properties == old(self).properties,
                self.slots == old(self).slots,
                self.proto == old(self).proto,
                self.class == old(self).class,
                self.interfaces == old(self).interfaces,
                self.extensible == old(self).extensible,
                disp_id < usize::MAX,
            decreases disp_id + 1 - self.methods.len(),
        {
            self.methods.push(None);
        }
        self.methods[disp_id] = Some(func);
        self.define_property(
            name,
            Property::Method { disp_id, func, attributes: Attributes::declared() },
            arena_len,
        );
    }

    /// Install `exec` as the getter of the computed property `name`. An
    /// already-installed setter for the same name is kept.
    pub fn install_getter_exec(&mut self, name: QName, exec: Executable, arena_len: Ghost<nat>)
        requires
            old(self).table_wf(arena_len@),
        ensures
            final(self).table_wf(arena_len@),
            spec_find_prop(final(self).properties@, name) matches Some(
                Property::Virtual { getter, setter, attributes },
            ) && getter == Some(exec) && attributes == Attributes::spec_declared() && setter == (
            match spec_find_prop(old(self).properties@, name) {
                Some(Property::Virtual { setter: s, .. }) => s,
                _ => None::<Executable>,
            }),
            forall|other: QName|
                !other.spec_eq(name) && !name.spec_eq(other) ==> #[trigger] spec_find_prop(
                    final(self).properties@,
                    other,
                ) == spec_find_prop(old(self).properties@, other),
            final(self).slots == old(self).slots,
            final(self).methods == old(self).methods,
            final(self).proto == old(self).proto,
            final(self).class == old(self).class,
            final(self).interfaces == old(self).interfaces,
            final(self).extensible == old(self).extensible,
    {
        let idx = self.find_index(&name);
        proof {
            lemma_find_index_prop(self.properties@, name);
        }
        let setter: Option<Executable> = match idx {
            Some(i) => match &self.properties[i].prop {
                Property::Virtual { setter, .. } => *setter,
                _ => None,
            },
            None => None,
        };
        self.define_property(
            name,
            Property::Virtual { getter: Some(exec), setter, attributes: Attributes::declared() },
            arena_len,
        );
    }

    /// Install `exec` as the setter of the computed property `name`. An
    /// already-installed getter for the same name is kept.
    pub fn install_setter_exec(&mut self, name: QName, exec: Executable, arena_len: Ghost<nat>)
        requires
            old(self).table_wf(arena_len@),
        ensures
            final(self).table_wf(arena_len@),
            spec_find_prop(final(self).properties@, name) matches Some(
                Property::Virtual { getter, setter, attributes },
            ) && setter == Some(exec) && attributes == Attributes::spec_declared() && getter == (
            match spec_find_prop(old(self).properties@, name) {
                Some(Property::Virtual { getter: g, .. }) => g,
                _ => None::<Executable>,
            }),
            forall|other: QName|
                !other.spec_eq(name) && !name.spec_eq(other) ==> #[trigger] spec_find_prop(
                    final(self).properties@,
                    other,
                ) == spec_find_prop(old(self).properties@, other),
            final(self).slots == old(self).slots,
            final(self).methods == old(self).methods,
            final(self).proto == old(self).proto,
            final(self).class == old(self).class,
            final(self).interfaces == old(self).interfaces,
            final(self).extensible == old(self).extensible,
    {
        let idx = self.find_index(&name);
        proof {
            lemma_find_index_prop(self.properties@, name);
        }
        let getter: Option<Executable> = match idx {
            Some(i) => match &self.properties[i].prop {
                Property::Virtual { getter, .. } => *getter,
                _ => None,
            },
            None => None,
        };
        self.define_property(
            name,
            Property::Virtual { getter, setter: Some(exec), attributes: Attributes::declared() },
            arena_len,
        );
    }

    /// Remove the dynamic property `name`. Only a stored, overwritable
    /// property can be deleted; the result says whether one was.
    pub fn delete_property(&mut self, name: &QName, arena_len: Ghost<nat>) -> (r: bool)
        requires
            old(self).table_wf(arena_len@),
        ensures
            final(self).table_wf(arena_len@),
            r == match spec_find_prop(old(self).properties@, *name) {
                Some(Property::Stored { attributes, .. }) => attributes.overwritable,
                _ => false,
            },
            r ==> spec_find_prop(final(self).properties@, *name) == spec_find_prop(
                old(self).properties@.subrange(
                    spec_find_index(old(self).properties@, *name).unwrap() + 1,
                    old(self).properties@.len() as int,
                ),
                *name,
            ),
            !r ==> *final(self) == *old(self),
            forall|other: QName|
                !other.spec_eq(*name) && !name.spec_eq(other) ==> #[trigger] spec_find_prop(
                    final(self).properties@,
                    other,
                ) == spec_find_prop(old(self).properties@, other),
            final(self).slots == old(self).slots,
            final(self).methods == old(self).methods,
            final(self).proto == old(self).proto,
            final(self).class == old(self).class,
            final(self).interfaces == old(self).interfaces,
            final(self).extensible == old(self).extensible,
    {
        let ghost old_props = self.properties@;
        let idx = self.find_index(name);
        proof {
            lemma_find_index_prop(old_props, *name);
        }
        match idx {
            Some(i) => {
                let deletable = match &self.properties[i].prop {
                    Property::Stored { attributes, .. } => attributes.overwritable,
                    _ => false,
                };
                if deletable {
                    self.properties.remove(i);
                    proof {
                        lemma_find_after_remove(old_props, *name, i as int);
                    }
                    true
                } else {
                    false
                }
            },
            None => false,
        }
    }

    /// Whether the general assignment path may write `name`: absent names
    /// may always be installed, stored properties go by their flag, and
    /// declared members may not be replaced.
    pub fn is_property_overwritable(&self, name: &QName) -> (r: bool)
        ensures
            r == match spec_find_prop(self.properties@, *name) {
                Some(p) => p.attrs().overwritable,
                None => true,
            },
    {
        let idx = self.find_index(name);
        proof {
            lemma_find_index_prop(self.properties@, *name);
        }
        match idx {
            Some(i) => match &self.properties[i].prop {
                Property::Stored { attributes, .. } => attributes.overwritable,
                Property::Slot { attributes, .. } => attributes.overwritable,
                Property::Method { attributes, .. } => attributes.overwritable,
                Property::Virtual { attributes, .. } => attributes.overwritable,
            },
            None => true,
        }
    }

    /// Whether the object itself (not its prototype chain) has `name`.
    pub fn has_own_property(&self, name: &QName) -> (r: bool)
        ensures
            r == (spec_find_prop(self.properties@, *name) is Some),
    {
        let idx = self.find_index(name);
        proof {
            lemma_find_index_prop(self.properties@, *name);
        }
        idx.is_some()
    }

    /// Whether the object has an own computed property with a getter under
    /// `name`.
    pub fn has_own_virtual_getter(&self, name: &QName) -> (r: bool)
        ensures
            r == match spec_find_prop(self.properties@, *name) {
                Some(Property::Virtual { getter, .. }) => getter is Some,
                _ => false,
            },
    {
        let idx = self.find_index(name);
        proof {
            lemma_find_index_prop(self.properties@, *name);
        }
        match idx {
            Some(i) => match &self.properties[i].prop {
                Property::Virtual { getter, .. } => getter.is_some(),
                _ => false,
            },
            None => false,
        }
    }

    /// Whether the object has an own computed property with a setter under
    /// `name`.
    pub fn has_own_virtual_setter(&self, name: &QName) -> (r: bool)
        ensures
            r == match spec_find_prop(self.properties@, *name) {
                Some(Property::Virtual { setter, .. }) => setter is Some,
                _ => false,
            },
    {
        let idx = self.find_index(name);
        proof {
            lemma_find_index_prop(self.properties@, *name);
        }
        match idx {
            Some(i) => match &self.properties[i].prop {
                Property::Virtual { setter, .. } => setter.is_some(),
                _ => false,
            },
            None => false,
        }
    }

    /// Whether enumeration yields `name`.
    pub fn property_is_enumerable(&self, name: &QName) -> (r: bool)
        ensures
            r == match spec_find_prop(self.properties@, *name) {
                Some(p) => p.attrs().enumerable,
                None => false,
            },
    {
        let idx = self.find_index(name);
        proof {
            lemma_find_index_prop(self.properties@, *name);
        }
        match idx {
            Some(i) => match &self.properties[i].prop {
                Property::Stored { attributes, .. } => attributes.enumerable,
                Property::Slot { attributes, .. } => attributes.enumerable,
                Property::Method { attributes, .. } => attributes.enumerable,
                Property::Virtual { attributes, .. } => attributes.enumerable,
            },
            None => false,
        }
    }

    /// Set whether enumeration yields the own property `name`. Doing so for
    /// an absent name changes nothing.
    pub fn set_local_property_is_enumerable(
        &mut self,
        name: &QName,
        is_enumerable: bool,
        arena_len: Ghost<nat>,
    ) -> (r: Result<(), crate::error::Error>)
        requires
            old(self).table_wf(arena_len@),
        ensures
            final(self).table_wf(arena_len@),
            r is Ok,
            match spec_find_prop(old(self).properties@, *name) {
                Some(p) => spec_find_prop(final(self).properties@, *name) == Some(
                    p.spec_with_attrs(
                        Attributes { enumerable: is_enumerable, overwritable: p.attrs().overwritable },
                    ),
                ),
                None => *final(self) == *old(self),
            },
            forall|other: QName|
                !other.spec_eq(*name) && !name.spec_eq(other) ==> #[trigger] spec_find_prop(
                    final(self).properties@,
                    other,
                ) == spec_find_prop(old(self).properties@, other),
            final(self).slots == old(self).slots,
            final(self).methods == old(self).methods,
            final(self).proto == old(self).proto,
            final(self).class == old(self).class,
            final(self).interfaces == old(self).interfaces,
            final(self).extensible == old(self).extensible,
    {
        let ghost old_props = self.properties@;
        let idx = self.find_index(name);
        proof {
            lemma_find_index_prop(old_props, *name);
        }
        match idx {
            Some(i) => {
                let ghost old_entry = self.properties@[i as int];
                match &mut self.properties[i].prop {
                    Property::Stored { attributes, .. } => {
                        attributes.enumerable = is_enumerable;
                    },
                    Property::Slot { attributes, .. } => {
                        attributes.enumerable = is_enumerable;
                    },
                    Property::Method { attributes, .. } => {
                        attributes.enumerable = is_enumerable;
                    },
                    Property::Virtual { attributes, .. } => {
                        attributes.enumerable = is_enumerable;
                    },
                }
                proof {
                    let new_entry = self.properties@[i as int];
                    assert(new_entry.name == old_entry.name);
                    assert(new_entry.prop == old_entry.prop.spec_with_attrs(
                        Attributes {
                            enumerable: is_enumerable,
                            overwritable: old_entry.prop.attrs().overwritable,
                        },
                    ));
                    assert(self.properties@ =~= old_props.update(i as int, new_entry));
                    lemma_find_after_update(old_props, *name, new_entry);
                    assert forall|k: int| 0 <= k < self.properties@.len() implies (
                    match #[trigger] self.properties@[k].prop {
                        Property::Slot { slot_id, .. } => slot_id < self.slots@.len(),
                        Property::Stored { value, .. } => value_ok(value, arena_len@),
                        Property::Method { func, .. } => func < arena_len@,
                        _ => true,
                    }) by {
                        if k != i {
                            assert(self.properties@[k] == old_props[k]);
                        }
                    }
                }
                Ok(())
            },
            None => Ok(()),
        }
    }

    /// The name of the enumerable own property at rank `index`, in insertion
    /// order; `None` once `index` runs past the last one.
    pub fn get_enumerant_name(&self, index: usize) -> (r: Option<QName>)
        ensures
            match (r, spec_enumerant(self.properties@, index as int)) {
                (Some(q), Some(s)) => q.spec_eq(s) && s.spec_eq(q),
                (None, None) => true,
                _ => false,
            },
    {
        self.enumerant_from(0, index)
    }

    /// The enumerable entry at rank `index` among the entries from `pos` on.
    fn enumerant_from(&self, pos: usize, index: usize) -> (r: Option<QName>)
        ensures
            match (r, spec_enumerant_from(self.properties@, pos as int, index as int)) {
                (Some(q), Some(s)) => q.spec_eq(s) && s.spec_eq(q),
                (None, None) => true,
                _ => false,
            },
        decreases self.properties@.len() - pos,
    {
        if pos >= self.properties.len() {
            None
        } else {
            let enumerable = match &self.properties[pos].prop {
                Property::Stored { attributes, .. } => attributes.enumerable,
                Property::Slot { attributes, .. } => attributes.enumerable,
                Property::Method { attributes, .. } => attributes.enumerable,
                Property::Virtual { attributes, .. } => attributes.enumerable,
            };
            if enumerable {
                if index == 0 {
                    Some(crate::names::qname_clone(&self.properties[pos].name))
                } else {
                    self.enumerant_from(pos + 1, index - 1)
                }
            } else {
                self.enumerant_from(pos + 1, index)
            }
        }
    }

    /// The interface prototypes attached to the object, in attachment order.
    pub fn interfaces(&self) -> (r: Vec<usize>)
        ensures
            r@ == self.interfaces@,
    {
        let mut r: Vec<usize> = Vec::new();
        let n = self.interfaces.len();
        let mut i: usize = 0;
        while i < n
            invariant
                n == self.interfaces@.len(),
                i <= n,
                r@ == self.interfaces@.subrange(0, i as int),
            decreases n - i,
        {
            r.push(self.interfaces[i]);
            assert(r@ =~= self.interfaces@.subrange(0, i + 1 as int));
            i += 1;
        }
        proof {
            assert(self.interfaces@.subrange(0, n as int) =~= self.interfaces@);
        }
        r
    }

    /// Replace the interface list. Derivation calls this once, after all
    /// declared interfaces resolved.
    pub fn set_interfaces(&mut self, iface_list: Vec<usize>, arena_len: Ghost<nat>)
        requires
            old(self).table_wf(arena_len@),
        ensures
            final(self).table_wf(arena_len@),
            final(self).interfaces == iface_list,
            final(self).properties == old(self).properties,
            final(self).slots == old(self).slots,
            final(self).methods == old(self).methods,
            final(self).proto == old(self).proto,
            final(self).class == old(self).class,
            final(self).extensible == old(self).extensible,
    {
        self.interfaces = iface_list;
    }

    /// The scope the object's class was defined in, if the object is marked
    /// as a class constructor or an instance prototype.
    pub fn get_scope(&self) -> (r: Option<usize>)
        ensures
            r == match self.class {
                ScriptObjectClass::ClassConstructor(_, s) => s,
                ScriptObjectClass::InstancePrototype(_, s) => s,
                ScriptObjectClass::NoClass => None::<usize>,
            },
    {
        match self.class {
            ScriptObjectClass::ClassConstructor(_, s) => s,
            ScriptObjectClass::InstancePrototype(_, s) => s,
            ScriptObjectClass::NoClass => None,
        }
    }
}

/// Lookup sees names only up to name equality: two equal names find the
/// same entry.
pub proof fn lemma_find_respects_eq(props: Seq<PropertyEntry>, n1: QName, n2: QName)
    requires
        n1.spec_eq(n2),
        n2.spec_eq(n1),
    ensures
        spec_find_prop(props, n1) == spec_find_prop(props, n2),
    decreases props.len(),
{
    if props.len() == 0 {
    } else {
        if props[0].name.spec_eq(n1) {
            crate::names::lemma_qname_eq_trans(props[0].name, n1, n2);
        }
        if props[0].name.spec_eq(n2) {
            crate::names::lemma_qname_eq_trans(props[0].name, n2, n1);
        }
        lemma_find_respects_eq(props.subrange(1, props.len() as int), n1, n2);
    }
}

/// A table well-formed against an arena stays well-formed as the arena
/// grows.
pub proof fn lemma_table_wf_mono(d: ScriptObjectData, len1: nat, len2: nat)
    requires
        d.table_wf(len1),
        len1 <= len2,
    ensures
        d.table_wf(len2),
{
}

/// Removing the first entry for `name` removes the name (when it had no
/// second entry it is gone) and leaves every other name's lookup unchanged.
pub proof fn lemma_find_after_remove(props: Seq<PropertyEntry>, name: QName, i: int)
    requires
        spec_find_index(props, name) == Some(i),
    ensures
        forall|other: QName|
            !other.spec_eq(name) && !name.spec_eq(other) ==> #[trigger] spec_find_prop(
                props.remove(i),
                other,
            ) == spec_find_prop(props, other),
        spec_find_prop(props.remove(i), name) == spec_find_prop(
            props.subrange(i + 1, props.len() as int),
            name,
        ),
    decreases props.len(),
{
    lemma_find_index_prop(props, name);
    let removed = props.remove(i);
    if props[0].name.spec_eq(name) {
        assert(i == 0);
        assert(removed =~= props.subrange(1, props.len() as int));
        assert forall|other: QName| !other.spec_eq(name) && !name.spec_eq(other) implies
            #[trigger] spec_find_prop(removed, other) == spec_find_prop(props, other) by {
            if props[0].name.spec_eq(other) {
                crate::names::lemma_qname_eq_sym(props[0].name, name);
                crate::names::lemma_qname_eq_trans(name, props[0].name, other);
            }
            assert(spec_find_prop(props, other) == spec_find_prop(
                props.subrange(1, props.len() as int),
                other,
            ));
        }
    } else {
        let rest = props.subrange(1, props.len() as int);
        lemma_find_index_prop(rest, name);
        lemma_find_after_remove(rest, name, i - 1);
        assert(removed[0] == props[0]);
        assert(removed.subrange(1, removed.len() as int) =~= rest.remove(i - 1));
        assert(props.subrange(i + 1, props.len() as int) =~= rest.subrange(
            i,
            rest.len() as int,
        ));
        assert(spec_find_prop(removed, name) == spec_find_prop(rest.remove(i - 1), name));
        assert forall|other: QName| !other.spec_eq(name) && !name.spec_eq(other) implies
            #[trigger] spec_find_prop(removed, other) == spec_find_prop(props, other) by {
            if props[0].name.spec_eq(other) {
                assert(spec_find_prop(removed, other) == Some(props[0].prop));
                assert(spec_find_prop(props, other) == Some(props[0].prop));
            } else {
                assert(spec_find_prop(removed, other) == spec_find_prop(
                    rest.remove(i - 1),
                    other,
                ));
                assert(spec_find_prop(props, other) == spec_find_prop(rest, other));
            }
        }
    }
}

} // verus!
