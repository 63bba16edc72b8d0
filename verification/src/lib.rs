//! Expansion of a token template over an integer range, and the decisions
//! of three small code generators.
//!
//! The heart of the crate is the sequence expansion. An invocation names a
//! binding, a range and a body: `N in 0..8 { ... }`. The body is stamped out
//! once per index, either as a whole or only in its sections marked
//! `#( ... )*`, and in each copy the binding stands for the index: `N`
//! becomes the literal of the index and `name~N` one identifier that ends in
//! it. [`expand::seq`] does all of it; the modules below it do the parts.
//!
//! - [`token`]: the token tree. [`lexical`] and [`text`]: what is asked of
//!   the Rust lexical rules and of number formatting.
//! - [`header`], [`walker`], [`range`], [`section`], [`expand`]: the parts
//!   of the expansion. [`laws`]: what holds of it as a whole.
//! - [`sorted`], [`builder`], [`debug`] over [`shape`]: what the order check
//!   and the generators for structs decide, from plain descriptions of
//!   what they were given.
//!
//! The library works on plain values. Turning the compiler's tokens and
//! syntax trees into them, and its answers back into tokens, is left to the
//! caller.

pub mod ast;
pub mod builder;
pub mod debug;
pub mod expand;
pub mod header;
pub mod laws;
pub mod lexical;
pub mod range;
pub mod section;
pub mod shape;
pub mod sorted;
pub mod text;
pub mod token;
pub mod walker;
