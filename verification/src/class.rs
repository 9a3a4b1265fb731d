//! Class metadata, as the bytecode loader supplies it: a declared type's
//! name, superclass name, interface names, initializer methods and member
//! traits. The derivation protocol consumes this read-only.

use crate::method::Method;
use crate::names::QName;
use vstd::prelude::*;

verus! {

/// What kind of member a trait declares.
#[derive(Clone, Copy, Debug, PartialEq, Eq, Structural)]
pub enum TraitKind {
    /// A fixed numbered slot holding a value.
    Slot { slot_id: usize },
    /// A method with a dispatch id.
    Method { disp_id: usize },
    /// A computed property's getter.
    Getter { disp_id: usize },
    /// A computed property's setter.
    Setter { disp_id: usize },
    /// A constant in a fixed numbered slot.
    Const { slot_id: usize },
}

/// A named member declared on a class.
#[derive(Clone, Debug)]
pub struct Trait {
    pub name: QName,
    pub kind: TraitKind,
}

/// A declared class, as loaded: names, initializers and member traits.
#[derive(Clone, Debug)]
pub struct Class {
    /// The class's own qualified name.
    pub name: QName,
    /// The name of the superclass, if one was declared.
    pub super_class_name: Option<QName>,
    /// The names of the interfaces the class declares, in declaration order.
    pub interfaces: Vec<QName>,
    /// The instance initializer, run once per constructed instance.
    pub instance_init: Method,
    /// The static initializer, run once per class before it is used.
    pub class_init: Method,
    /// The member traits declared on the class.
    pub traits: Vec<Trait>,
}

} // verus!
