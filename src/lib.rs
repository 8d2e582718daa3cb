//! Register-based bytecode engine for an embeddable SQL database: the value
//! model, the scalar functions, the instruction set and the interpreter loop.
pub mod cast;
pub mod explain;
pub mod functions;
pub mod hexcodec;
pub mod interp;
pub mod laws;
pub mod like;
pub mod program;
pub mod soundex;
pub mod state;
pub mod text;
pub mod value;
pub mod vm;
