//! The code generation core of a compiler for a hot-reloadable language: type lowering and the
//! native struct cache, the runtime's ABI catalog, the dispatch table of patchable call slots,
//! the type table of runtime type descriptors, and the per-file signatures and wrappers.

pub mod abi_types;
pub mod code_gen;
pub mod context;
pub mod dispatch_table;
pub mod file;
pub mod file_group;
pub mod intrinsics;
pub mod layout;
pub mod program;
pub mod ty;
pub mod type_manager;
pub mod type_table;
