pub mod ast;
pub mod ty;
pub mod unify;
pub mod object;
pub mod environment;
pub mod eval;
pub mod name_source;
pub mod infer;
pub mod display;
pub mod db;
pub mod laws;
