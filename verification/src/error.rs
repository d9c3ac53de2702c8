//! The library's error type.

use vstd::prelude::*;

verus! {

/// What can go wrong at the boundary where the scripting side hands values
/// in. Entities are referred to by their external 64-bit id.
#[derive(Debug, Clone, PartialEq)]
pub enum BevyRubyError {
    EntityNotFound(u64),
    ComponentNotFound { entity: u64, component: String },
    ComponentAlreadyExists(String),
    ResourceNotFound(String),
    ResourceAlreadyExists(String),
    ComponentNotRegistered(String),
    InvalidType { expected: String, actual: String },
    SystemError(String),
    WorldNotAvailable,
}

} // verus!
