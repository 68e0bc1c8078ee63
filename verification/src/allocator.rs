//! The choices and the statistics of the memory allocator.
//!
//! Memory itself is handed out elsewhere.
use vstd::prelude::*;

verus! {

/// What a heap holds.
#[derive(Debug)]
pub struct RpmallocHeapStatistics {
    pub allocated_bytes: usize,
    pub committed_bytes: usize,
    pub mapped_bytes: usize,
}

impl Default for RpmallocHeapStatistics {
    fn default() -> (statistics: RpmallocHeapStatistics)
        ensures
            statistics == (RpmallocHeapStatistics {
                allocated_bytes: 0,
                committed_bytes: 0,
                mapped_bytes: 0,
            }),
    {
        RpmallocHeapStatistics { allocated_bytes: 0, committed_bytes: 0, mapped_bytes: 0 }
    }
}

/// What the allocator holds in all.
#[derive(Debug)]
pub struct RpmallocGlobalStatistics {
    pub mapped: usize,
    pub mapped_peak: usize,
    pub committed: usize,
    pub decommitted: usize,
    pub active: usize,
    pub active_peak: usize,
    pub huge_alloc: usize,
    pub huge_alloc_peak: usize,
    pub heap_count: usize,
}

impl Default for RpmallocGlobalStatistics {
    fn default() -> (statistics: RpmallocGlobalStatistics)
        ensures
            statistics == (RpmallocGlobalStatistics {
                mapped: 0,
                mapped_peak: 0,
                committed: 0,
                decommitted: 0,
                active: 0,
                active_peak: 0,
                huge_alloc: 0,
                huge_alloc_peak: 0,
                heap_count: 0,
            }),
    {
        RpmallocGlobalStatistics {
            mapped: 0,
            mapped_peak: 0,
            committed: 0,
            decommitted: 0,
            active: 0,
            active_peak: 0,
            huge_alloc: 0,
            huge_alloc_peak: 0,
            heap_count: 0,
        }
    }
}

/// Whether memory of this alignment has to be asked for with its alignment: up to 16 bytes every
/// block is aligned.
pub fn needs_aligned_call(align: usize) -> (aligned: bool)
    ensures
        aligned == (align > 16),
{
    align > 16
}

/// Whether a block is tracked when it is handed out or given back: where tracking is on and there is
/// a block.
pub fn tracks_block(tracking: bool, is_null: bool) -> (tracks: bool)
    ensures
        tracks == (tracking && !is_null),
{
    tracking && !is_null
}

} // verus!
