//! Completion of associated items in trait implementations.

pub mod agreement;
pub mod completion;
pub mod declaration;
pub mod hir;
pub mod laws;
pub mod syntax;
pub mod text;
pub mod trait_impl;
