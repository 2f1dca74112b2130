//! Layout descriptors for composite types that a message-passing runtime
//! sends straight from memory.
//!
//! A caller describes a type as a [`shape::Shape`], or the definition of a
//! composite type as a [`shape::Data`]. The builder in [`builder`] walks
//! the shape and returns a [`datatype::Datatype`]: for every aggregate the
//! number of its fields, one block of length one per field, the offset of
//! each field inside its owner and the descriptor of each field's type.
//! An offset names the owner and the field; [`host::HostLayout`] holds the
//! distances in bytes that the host has measured for them. What holds of
//! every build is proved in [`laws`].
pub mod builder;
pub mod datatype;
pub mod host;
pub mod laws;
pub mod shape;
