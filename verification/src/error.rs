//! The errors the object and derivation protocol can report. All of them are
//! script-visible error values, not panics: a failed derivation aborts that
//! derivation and leaves every already-built object untouched.

use vstd::prelude::*;

verus! {

/// What went wrong.
#[derive(Clone, Debug)]
pub enum Error {
    /// A value with no executable was invoked.
    NotCallable,
    /// A base class's `prototype` property could not be resolved to an object
    /// during derivation.
    UnresolvedSuperclassPrototype,
    /// An interface name declared on a class could not be resolved in the
    /// defining scope. Carries the local name that failed to resolve.
    UnresolvedInterface(Vec<u8>),
    /// A dynamic property was installed on an object that does not accept new
    /// properties.
    ObjectSealed,
    /// A property that is not overwritable was assigned to.
    PropertyNotOverwritable,
    /// A numbered slot outside the object's slot table was addressed.
    SlotOutOfBounds,
}

impl Error {
    /// A short name for the error, for hosts that display it.
    pub fn text(&self) -> (r: Vec<u8>)
        ensures
            r@.len() > 0,
    {
        match self {
            Error::NotCallable => {
                // "not callable"
                let v: Vec<u8> = vec![
                    110u8, 111u8, 116u8, 32u8, 99u8, 97u8, 108u8, 108u8, 97u8, 98u8, 108u8, 101u8,
                ];
                v
            },
            Error::UnresolvedSuperclassPrototype => {
                // "unresolved superclass prototype"
                let v: Vec<u8> = vec![
                    117u8, 110u8, 114u8, 101u8, 115u8, 111u8, 108u8, 118u8, 101u8, 100u8, 32u8,
                    115u8, 117u8, 112u8, 101u8, 114u8, 99u8, 108u8, 97u8, 115u8, 115u8, 32u8,
                    112u8, 114u8, 111u8, 116u8, 111u8, 116u8, 121u8, 112u8, 101u8,
                ];
                v
            },
            Error::UnresolvedInterface(_) => {
                // "unresolved interface"
                let v: Vec<u8> = vec![
                    117u8, 110u8, 114u8, 101u8, 115u8, 111u8, 108u8, 118u8, 101u8, 100u8, 32u8,
                    105u8, 110u8, 116u8, 101u8, 114u8, 102u8, 97u8, 99u8, 101u8,
                ];
                v
            },
            Error::ObjectSealed => {
                // "object sealed"
                let v: Vec<u8> = vec![
                    111u8, 98u8, 106u8, 101u8, 99u8, 116u8, 32u8, 115u8, 101u8, 97u8, 108u8, 101u8,
                    100u8,
                ];
                v
            },
            Error::PropertyNotOverwritable => {
                // "property not overwritable"
                let v: Vec<u8> = vec![
                    112u8, 114u8, 111u8, 112u8, 101u8, 114u8, 116u8, 121u8, 32u8, 110u8, 111u8,
                    116u8, 32u8, 111u8, 118u8, 101u8, 114u8, 119u8, 114u8, 105u8, 116u8, 97u8,
                    98u8, 108u8, 101u8,
                ];
                v
            },
            Error::SlotOutOfBounds => {
                // "slot out of bounds"
                let v: Vec<u8> = vec![
                    115u8, 108u8, 111u8, 116u8, 32u8, 111u8, 117u8, 116u8, 32u8, 111u8, 102u8,
                    32u8, 98u8, 111u8, 117u8, 110u8, 100u8, 115u8,
                ];
                v
            },
        }
    }
}

} // verus!
