//! Call-stack capture types and an object/DWARF based symbolizer.
//!
//! The crate turns raw instruction-pointer addresses into symbol names,
//! source files and line numbers. Everything that touches the operating
//! system (walking the stack, enumerating loaded images, mapping files,
//! asking the dynamic loader) is done by the caller, who hands the results
//! in as plain values; the rules that decide what an address resolves to
//! live here and are machine-checked.
//!
//! # Usage
//!
//! ```text
//! let mut cache = Cache::new(Format::Elf, libraries);
//! for frame in &frames {
//!     let supplied = match cache.avma_to_svma(frame.ip()) {
//!         Some((lib, _)) if !cache.contains(lib) => read(cache.library_name(lib)),
//!         _ => None,
//!     };
//!     let symbols = resolve(&mut cache, ResolveWhat::Frame(*frame), supplied, None);
//!     // ...
//! }
//! ```
pub use crate::backtrace::{trace, Frame, Walk};
pub use crate::capture::{Backtrace, BacktraceFrame, BacktraceSymbol};
pub use crate::symbolize::gimli::{clear_symbol_cache, resolve, Cache, Format, Supplied, Symbol};
pub use crate::symbolize::ResolveWhat;
pub use crate::types::BytesOrWideString;

pub mod backtrace;
pub mod capture;
pub mod dbghelp;
pub mod format;
pub mod lock;
pub mod symbolize;
pub mod types;
