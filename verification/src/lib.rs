//! A native document-object reflection layer: it models how a scripting
//! engine's prototype-based object world is wired to a native, tree-shaped
//! document model.
//!
//! The crate keeps the whole object graph as explicit, verifiable state: a
//! prototype registry of type bindings, a heap of script-visible objects, the
//! parsed node trees, and the global name table. Script-triggered entry
//! points (constructing an instance, downcasting a payload, walking to the
//! root of a tree) are verified against contracts stated over that state.

use vstd::prelude::*;

pub mod context;
pub mod document;
pub mod heap;
pub mod node;
pub mod payload;
pub mod registry;
pub mod table;
pub mod tree;
pub mod window;

pub use context::init;

verus! {

/// The error kinds that the reflection layer can surface.
///
/// Every error that a script-triggered call can raise is representable here,
/// so a host can turn each into a script-catchable exception.
#[derive(Debug, Clone, Copy, PartialEq, Eq, Structural)]
pub enum DomError {
    /// A non-constructible class was invoked with `new`.
    IllegalConstructor,
    /// The downcast gate found no payload, or one of the wrong type.
    TypeMismatch,
    /// A type was registered before its supertype, or under a name already
    /// taken in this context.
    RegistrationOrder,
    /// A type name was looked up that was never registered.
    UnknownType,
    /// The tree parser could not produce a tree for the given markup. The
    /// bundled HTML parser recovers from every input and never reports this;
    /// the kind stands in the error surface for hosts whose parser can reject
    /// markup.
    ParseFailure,
    /// A context was asked to initialize twice.
    AlreadyInitialized,
}

impl DomError {
    /// A short human-readable description of the error kind.
    pub fn message(&self) -> (r: &'static str)
        ensures
            self is IllegalConstructor ==> r@ == "Illegal constructor"@,
    {
        match self {
            DomError::IllegalConstructor => "Illegal constructor",
            DomError::TypeMismatch => "value is not of the expected native type",
            DomError::RegistrationOrder => "type registered before its supertype or twice",
            DomError::UnknownType => "type name is not registered",
            DomError::ParseFailure => "markup could not be parsed",
            DomError::AlreadyInitialized => "context is already initialized",
        }
    }
}

} // verus!
