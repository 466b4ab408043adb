//! Building blocks of a just-in-time code generator: descriptors of native
//! types and their memory layout, labels and structured loops, and a builder
//! that assembles the instructions of a function before it is compiled.

pub mod bracket;
pub mod compile;
pub mod consts;
pub mod context;
pub mod control;
pub mod convert;
pub mod function;
pub mod kind;
pub mod label;
pub mod layout;
pub mod render;
pub mod types;
pub mod typing;

pub use crate::compile::{get, Compile};
pub use crate::context::{Builder, Context};
pub use crate::function::{
    Abi, BinaryOp, CompileError, CompiledFunction, Insn, Origin, UnaryOp, UncompiledFunction,
    Value,
};
pub use crate::label::Label;
pub use crate::types::{CowType, Field, Fields, Params, TaggedType, Type, TypeKind, TypeRef};
