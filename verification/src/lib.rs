//! A toolchain for a small stack language and the 16-bit machine that it
//! runs on.
//!
//! The compiler walks the syntax tree of a module, emits assembly text, and
//! checks on the way that every operation finds the types that it takes on
//! an abstract stack of types. The emulator runs machine code one cycle at a
//! time. What each function does is stated in its contract and proved.

pub mod arena;
pub mod assembly;
pub mod ast;
pub mod block;
pub mod compile;
pub mod const_defs;
pub mod convert;
pub mod dep_graph;
pub mod devices;
pub mod display;
pub mod emulator;
pub mod error;
pub mod function;
pub mod gss;
pub mod hardware;
pub mod image;
pub mod keyboard;
pub mod labels;
pub mod laws;
pub mod layout;
pub mod module;
pub mod operator;
pub mod options;
pub mod preprocess;
pub mod render;
pub mod scope;
pub mod sizes;
pub mod state;
pub mod statement;
pub mod table;
pub mod tasm;
pub mod text;
pub mod type_check;
pub mod type_parse;
pub mod types;
