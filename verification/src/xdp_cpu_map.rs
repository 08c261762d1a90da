//! The restricted-side descriptor of a dense CPU table.
//!
//! In a deployed program this descriptor is a static record embedded in
//! the program image; the loader reads it and creates the matching
//! kernel table before the program runs, and the descriptor is never
//! mutated afterwards.  The model collapses declaration and load into
//! construction: building the descriptor creates the kernel table it is
//! bound to, and the descriptor stays immutable from then on.

use vstd::prelude::*;

use crate::defs::{TableDef, BPF_MAP_TYPE_CPUMAP, CHAINED_VALUE_SIZE, PIN_BY_NAME, PIN_NONE,
    REDIRECT_KEY_SIZE};
use crate::kernel::Kernel;

verus! {

/// A dense table of CPUs, declared by the restricted program so that it
/// can redirect the packet being processed to another CPU.
#[derive(Clone, Copy, Debug, PartialEq, Eq, Structural)]
pub struct CpuMap {
    /// The embedded layout record.
    pub def: TableDef,
    /// Handle of the kernel table the loader created for the record.
    pub fd: usize,
}

impl CpuMap {
    /// The layout record a CPU-table declaration embeds: one `u32` key
    /// per slot and a two-word value (queue size and chained-program
    /// field).
    pub open spec fn spec_def(max_entries: u32, flags: u32, pinning: u32) -> TableDef {
        TableDef {
            map_type: BPF_MAP_TYPE_CPUMAP,
            key_size: REDIRECT_KEY_SIZE,
            value_size: CHAINED_VALUE_SIZE,
            max_entries,
            map_flags: flags,
            id: 0,
            pinning,
        }
    }

    /// The descriptor is bound to a live kernel table that carries
    /// exactly its layout.
    pub open spec fn bound(self, k: Kernel) -> bool {
        &&& k.is_table(self.fd as int)
        &&& k.table_def(self.fd as int) == self.def
    }

    /// Declares a CPU table with the given capacity and flag bits, not
    /// pinned.  All layout fields are fixed here and never change.
    pub fn with_max_entries(k: &mut Kernel, max_entries: u32, flags: u32) -> (r: CpuMap)
        requires
            old(k).wf(),
            max_entries >= 1,
        ensures
            final(k).wf(),
            r.def == CpuMap::spec_def(max_entries, flags, PIN_NONE),
            r.bound(*final(k)),
            old(k).created_at(*final(k), r.fd as int, r.def),
    {
        Self::declare(k, max_entries, flags, PIN_NONE)
    }

    /// Declares a CPU table that asks to be pinned by name.
    pub fn pinned(k: &mut Kernel, max_entries: u32, flags: u32) -> (r: CpuMap)
        requires
            old(k).wf(),
            max_entries >= 1,
        ensures
            final(k).wf(),
            r.def == CpuMap::spec_def(max_entries, flags, PIN_BY_NAME),
            r.bound(*final(k)),
            old(k).created_at(*final(k), r.fd as int, r.def),
    {
        Self::declare(k, max_entries, flags, PIN_BY_NAME)
    }

    fn declare(k: &mut Kernel, max_entries: u32, flags: u32, pinning: u32) -> (r: CpuMap)
        requires
            old(k).wf(),
            max_entries >= 1,
        ensures
            final(k).wf(),
            r.def == CpuMap::spec_def(max_entries, flags, pinning),
            r.bound(*final(k)),
            old(k).created_at(*final(k), r.fd as int, r.def),
    {
        let def = TableDef {
            map_type: BPF_MAP_TYPE_CPUMAP,
            key_size: REDIRECT_KEY_SIZE,
            value_size: CHAINED_VALUE_SIZE,
            max_entries,
            map_flags: flags,
            id: 0,
            pinning,
        };
        let fd = match k.create_table(def) {
            Result::Ok(fd) => fd,
            Result::Err(_) => {
                proof {
                    assert(false);
                }
                0
            },
        };
        CpuMap { def, fd }
    }

    /// Redirects the packet being processed to the CPU at `index`, or
    /// falls back to the action encoded in `flags` when the slot is
    /// empty.  One bounded call into the kernel's redirect helper: no
    /// allocation, no recoverable error.
    pub fn redirect(&self, k: &Kernel, index: u32, flags: u64) -> (r: u32)
        ensures
            r == k.spec_redirect(self.fd as int, index, flags),
    {
        k.redirect_map(self.fd, index, flags)
    }
}

} // verus!
