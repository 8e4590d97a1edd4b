//! Access-control audit engine: resolves role bindings into flattened
//! capability sets and matches a declarative policy against them.
pub mod access;
pub mod check;
pub mod print;

pub use access::{Access, Binding, CRBInfo, NsAll, PolicyRule, RBInfo, RoleDef, RoleLookup, Subject};
pub use check::{Check, CheckError, CheckItem, ItemReport, Kind, Rules};
pub use print::{OutCR, OutR, SubKind};
