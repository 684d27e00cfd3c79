//! The state-transition core of a small ledger runtime.
//!
//! State is owned by modules: `system` counts blocks and submissions,
//! `balances` keeps the ledger, `proof_of_existence` records who owns which
//! content. Each module is generic over the types named by its `Config`.
//! `runtime` assembles one instance of each, routes calls to the module that
//! owns them and executes blocks of extrinsics in order.

pub mod balances;
pub mod identity;
pub mod numeric;
pub mod proof_of_existence;
pub mod runtime;
pub mod support;
pub mod system;
pub mod table;
pub mod types;

pub use runtime::Runtime;
