//! Mocha-style lifecycle hooks for test modules: hook declarations are
//! collected from a module and their statements woven into every test case.
pub mod hooks;
pub mod laws;
pub mod model;
pub mod weave;

pub use hooks::{FunctionAttributeVariant, HooksData, PrinterAttributeVariant};
pub use model::{Container, Decl, Fragment, FunctionDecl, Marker, PrinterError, Stmt};
pub use weave::{get_hooks_from_mod, insert_code_end, insert_code_front, insert_syncing_code, printer_core, weave_test_case};
