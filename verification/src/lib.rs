//! A freestanding stack unwinder: the DWARF Call Frame Information
//! interpreter, the frame-walk state machine, and the two-phase
//! search/cleanup protocol of the Itanium C++ ABI, over an explicit model
//! of the target's register file and stack memory.
//!
//! The crate is organised as a dependency stack, leaves first: the
//! register-context model (`arch`), the byte-level readers (`bytes`,
//! `leb`), the frame records (`entry`) and their registry (`registry`),
//! the CFI virtual machine (`cfi`, `vm`) with its expression evaluator
//! (`expr`), the frame walker (`walker`), and the ABI engine (`abi`).
//! `laws` states and proves the engine's cross-function guarantees.

pub mod abi;
pub mod arch;
pub mod bytes;
pub mod cfi;
pub mod eh_frame;
pub mod encoding;
pub mod entry;
pub mod expr;
pub mod laws;
pub mod leb;
pub mod mem;
pub mod registry;
pub mod section;
pub mod vm;
pub mod walker;

pub use arch::Context;
pub use arch::MAX_REG_RULES;
