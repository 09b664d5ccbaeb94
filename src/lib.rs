//! Compile-time code generators over a plain token-tree model.
//!
//! - `seq`: range template expansion, `N in 0..4 { ... }`, with identifier
//!   concatenation `prefix # N` and localized repetition groups `#( ... )*`;
//! - `sorted`: the check that an enum's variants are in lexicographic order;
//! - `builder` and `debug`: what a builder derive and a debug-formatter
//!   derive generate for a struct, decided from its fields and attributes.
//!
//! Source positions are carried as opaque `usize` handles, so that callers
//! can map them back to their own position type.

pub mod builder;
pub mod debug;
pub mod decimal;
pub mod error;
pub mod seq;
pub mod sorted;
pub mod syntax;
pub mod token;
