//! The build engine's configuration and the emission kinds it recognises.

use vstd::prelude::*;
use crate::text::{has_prefix, starts_with};

verus! {

/// Configuration read by every intercepted command; set once per build run.
pub struct BuildEngine {
    /// Cross-compilation target triple.
    pub target: Option<String>,
    /// Alternate system root handed to the compiler.
    pub sysroot: Option<String>,
    /// Second-stage (browser) toolchain program.
    pub emcc: Option<String>,
    /// IR optimizer program.
    pub opt: Option<String>,
    /// Requested emission kind.
    pub emit: Option<String>,
}

/// Whether an emission kind belongs to the legacy-IR family.
pub open spec fn is_legacy_kind(e: Seq<char>) -> bool {
    has_prefix(e, "llvm35-"@)
}

/// Whether an emission kind belongs to the browser-output family.
pub open spec fn is_browser_kind(e: Seq<char>) -> bool {
    has_prefix(e, "em-"@)
}

/// Whether the configured emission kind asks for the IR dialect repair:
/// it belongs to the legacy-IR or to the browser-output family.
pub open spec fn needs_repair(emit: Option<String>) -> bool {
    match emit {
        Some(e) => is_legacy_kind(e@) || is_browser_kind(e@),
        None => false,
    }
}

impl BuildEngine {
    /// Whether `emit` asks for the IR dialect repair.
    pub fn emit_needs_35(emit: &Option<String>) -> (r: bool)
        ensures
            r == needs_repair(*emit),
    {
        match emit {
            Some(e) => starts_with(e.as_str(), "llvm35-") || starts_with(e.as_str(), "em-"),
            None => false,
        }
    }
}

} // verus!
