//! Platform support report.
use vstd::prelude::*;
use crate::clipboard::{BackendCapabilities, ClipboardBackend};
use crate::text::copy_str;

verus! {

/// Which backend is active and what it supports.
#[derive(Debug, Clone, PartialEq, Eq)]
pub struct DiagnosticsReport {
    pub backend: String,
    pub capabilities: BackendCapabilities,
}

/// Builds a report from the active backend's own `capabilities()`.
pub fn generate_report<B: ClipboardBackend + ?Sized>(backend_name: &str, backend: &B) -> (r: DiagnosticsReport)
    ensures
        r.backend@ == backend_name@,
        r.capabilities == backend.caps(),
{
    DiagnosticsReport { backend: copy_str(backend_name), capabilities: backend.capabilities() }
}

} // verus!
