//! Synthesis and rendering of C declarators from a resolved type and function
//! intermediate representation, together with the loader that builds that
//! representation from a raw callable signature.

pub mod cdecl;
pub mod config;
pub mod function;
pub mod ir;
pub mod laws;
pub mod load;
pub mod render;
pub mod text;
