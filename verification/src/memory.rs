//! Synthetic process-memory indicators.
//!
//! These reports carry fixed, illustrative data: no process memory is
//! read. Real memory forensics (memory maps, hook detection, ptrace)
//! is a separate system; these functions only keep the reporting shape
//! that callers consume.

use vstd::prelude::*;

verus! {

/// Names of modules flagged as potentially injected. The data is
/// synthetic: one fixed indicator.
pub fn detect_dll_injection() -> (r: Vec<String>)
    ensures
        r@.len() == 1,
        r@[0]@ == "Potential injected library detected"@,
{
    let mut injected_modules: Vec<String> = Vec::new();
    injected_modules.push("Potential injected library detected".to_owned());
    injected_modules
}

/// Heap statistics as (name, value) pairs. The data is synthetic: a
/// fixed total and no suspicious allocations.
pub fn analyze_heap_allocations() -> (r: Vec<(String, usize)>)
    ensures
        r@.len() == 2,
        r@[0].0@ == "total_allocated"@,
        r@[0].1 == 1048576,
        r@[1].0@ == "suspicious_allocations"@,
        r@[1].1 == 0,
{
    let mut heap_stats: Vec<(String, usize)> = Vec::new();
    heap_stats.push(("total_allocated".to_owned(), 1048576));
    heap_stats.push(("suspicious_allocations".to_owned(), 0));
    heap_stats
}

/// Names of anti-debugging techniques observed. The data is synthetic:
/// one fixed indicator.
pub fn detect_anti_debugging() -> (r: Vec<String>)
    ensures
        r@.len() == 1,
        r@[0]@ == "Debugger detection pattern found"@,
{
    let mut techniques: Vec<String> = Vec::new();
    techniques.push("Debugger detection pattern found".to_owned());
    techniques
}

} // verus!
