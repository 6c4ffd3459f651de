//! Value representation for a small Scheme runtime: a tagged-union datum kept
//! in a never-reclaiming arena, and a symbol table that gives equal names one
//! canonical text allocation, so that symbols compare by identity.

pub mod memory;

pub mod scm_naive;
pub mod symbol;

pub use memory::allocate;
pub use scm_naive::{Heap, SchemeValue, Scm, ScmBox};
pub use symbol::{get_interned_string, set_interned_string, Allocation, StringInterner, Symbol, SymbolTable};
