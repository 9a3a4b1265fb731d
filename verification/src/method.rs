//! Call targets before they are wrapped in an executable: host-native
//! methods, which the library dispatches itself, and bytecode methods, which
//! an external interpreter loop runs.

use vstd::prelude::*;

verus! {

/// A method the host implements natively. The set is closed: dispatching one
/// is a verified `match`, not an opaque function pointer.
#[derive(Clone, Copy, Debug, PartialEq, Eq, Structural)]
pub enum NativeMethod {
    /// The global `random` function.
    Random,
    /// The global `isNaN` function.
    IsNan,
    /// The getter behind the global `Infinity` property.
    GetInfinity,
    /// The getter behind the global `NaN` property.
    GetNan,
    /// The global `setInterval` function.
    SetInterval,
    /// The global `setTimeout` function.
    SetTimeout,
    /// The global `clearInterval` function.
    ClearInterval,
    /// The global `updateAfterEvent` function.
    UpdateAfterEvent,
    /// A host method that returns the receiver it was called with, or
    /// `Undefined` when it has none.
    ReturnThis,
    /// A host method that returns how many arguments it was given.
    ReturnArgumentCount,
    /// A host method that returns `Undefined` and does nothing.
    ReturnUndefined,
}

/// A handle to a method body in a loaded bytecode file. The decoder that
/// produces bodies is an external collaborator; the handle only identifies
/// one.
#[derive(Clone, Copy, Debug, PartialEq, Eq, Structural)]
pub struct BytecodeMethod {
    /// Which method of the loaded file this is.
    pub method_id: usize,
}

/// A method, before receiver binding and scope capture: either native code or
/// an entry into loaded bytecode.
#[derive(Clone, Copy, Debug, PartialEq, Eq, Structural)]
pub enum Method {
    /// Code the host implements natively.
    Native(NativeMethod),
    /// Code in a loaded bytecode file.
    Entry(BytecodeMethod),
}

} // verus!
