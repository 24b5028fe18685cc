pub mod class;
pub mod docstring;
pub mod function;
pub mod module;
pub mod object;
pub mod syntax;
