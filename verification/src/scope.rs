//! Lexical scope chains: an ordered, arena-owned linked structure of
//! frames, each holding its bound names in a values object. Free names are
//! resolved by walking the chain innermost-first; a closure keeps its chain
//! alive by holding the frame's index.

use crate::arena::Arena;
use crate::names::QName;
use crate::value::Value;
use crate::value::opt_value_eq;
use vstd::prelude::*;

verus! {

/// One frame of a scope chain.
#[derive(Clone, Copy, Debug, PartialEq, Eq, Structural)]
pub struct Scope {
    /// The enclosing frame, if any. Frames are created after their parents,
    /// so a chain always ends.
    pub parent: Option<usize>,
    /// The object whose properties are the names bound in this frame.
    pub values: usize,
}

impl Scope {
    /// Resolve `name` against the chain starting at `scope`: the innermost
    /// frame whose values object resolves the name (through its prototype
    /// chain, stored values only) wins.
    pub fn resolve(arena: &Arena, scope: usize, name: &QName) -> (r: Option<Value>)
        requires
            arena.wf(),
            scope < arena.scopes@.len(),
        ensures
            opt_value_eq(r, arena.spec_resolve(scope as int, *name)),
        decreases scope,
    {
        proof {
            assert(arena.scope_wf(scope as int));
        }
        let frame = arena.scopes[scope];
        let found = arena.get_property(frame.values, name);
        match found {
            Some(v) => Some(v),
            None => match frame.parent {
                Some(p) => Scope::resolve(arena, p, name),
                None => None,
            },
        }
    }
}

} // verus!
