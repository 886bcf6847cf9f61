pub mod ast;
pub mod text;
pub mod collections;
pub mod error;
pub mod names;
pub mod type_utils;
pub mod validation;
pub mod policy;
pub mod checker;
pub mod laws;
pub mod emitter;
