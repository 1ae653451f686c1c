//! Translates a GraphQL introspection document into a JDDF-style
//! schema: a mapping of named definitions plus a reference to the
//! root query type.
//!
//! The crate works on plain in-memory data: callers hand it an
//! [`input::IntrospectionDocument`] already decoded from JSON, and it
//! returns the definitions mapping as plain values, ready to be
//! serialized.

use vstd::prelude::*;

pub mod assoc;
pub mod builder;
pub mod input;
pub mod ir;
pub mod laws;
pub mod translate;

verus! {

} // verus!
