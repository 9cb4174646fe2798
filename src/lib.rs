//! Field analysis for deriving validation and modification: resolves each
//! field's type signature and turns its annotations into rule and modifier
//! descriptors.
pub mod syntax;
pub mod signature;
pub mod rules;
pub mod fields;
