//! The restricted-side descriptor of a dense table of network devices.
//!
//! Entries are a bare `u32` target device index; the restricted program
//! can look a slot up or redirect the packet being processed to it.

use vstd::prelude::*;

use crate::codec::{le_to_u32_at, le_u32, lemma_le_u32_of_u32_le, u32_to_le};
use crate::defs::{TableDef, BPF_MAP_TYPE_DEVMAP, PIN_BY_NAME, PIN_NONE, PLAIN_VALUE_SIZE,
    REDIRECT_KEY_SIZE};
use crate::kernel::{lemma_table_value_size, Kernel};

verus! {

/// A dense table of network devices, declared by the restricted program
/// so that it can redirect the packet being processed to another
/// device.
#[derive(Clone, Copy, Debug, PartialEq, Eq, Structural)]
pub struct DevMap {
    /// The embedded layout record.
    pub def: TableDef,
    /// Handle of the kernel table the loader created for the record.
    pub fd: usize,
}

impl DevMap {
    /// The layout record a device-table declaration embeds: one `u32`
    /// key per slot and a bare `u32` target index as value.
    pub open spec fn spec_def(max_entries: u32, flags: u32, pinning: u32) -> TableDef {
        TableDef {
            map_type: BPF_MAP_TYPE_DEVMAP,
            key_size: REDIRECT_KEY_SIZE,
            value_size: PLAIN_VALUE_SIZE,
            max_entries,
            map_flags: flags,
            id: 0,
            pinning,
        }
    }

    /// The descriptor is bound to a live kernel table that carries
    /// exactly its layout.
    pub open spec fn bound(self, k: Kernel) -> bool {
        &&& k.is_table(self.fd as int)
        &&& k.table_def(self.fd as int) == self.def
    }

    /// A bound descriptor whose layout has the declared device-table
    /// shape: `u32` keys and bare `u32` values.
    pub open spec fn wf(self, k: Kernel) -> bool {
        &&& self.bound(k)
        &&& self.def.key_size == REDIRECT_KEY_SIZE
        &&& self.def.value_size == PLAIN_VALUE_SIZE
    }

    /// Declares a device table with the given capacity and flag bits,
    /// not pinned.  All layout fields are fixed here and never change.
    pub fn with_max_entries(k: &mut Kernel, max_entries: u32, flags: u32) -> (r: DevMap)
        requires
            old(k).wf(),
            max_entries >= 1,
        ensures
            final(k).wf(),
            r.def == DevMap::spec_def(max_entries, flags, PIN_NONE),
            r.bound(*final(k)),
            old(k).created_at(*final(k), r.fd as int, r.def),
    {
        Self::declare(k, max_entries, flags, PIN_NONE)
    }

    /// Declares a device table that asks to be pinned by name.
    pub fn pinned(k: &mut Kernel, max_entries: u32, flags: u32) -> (r: DevMap)
        requires
            old(k).wf(),
            max_entries >= 1,
        ensures
            final(k).wf(),
            r.def == DevMap::spec_def(max_entries, flags, PIN_BY_NAME),
            r.bound(*final(k)),
            old(k).created_at(*final(k), r.fd as int, r.def),
    {
        Self::declare(k, max_entries, flags, PIN_BY_NAME)
    }

    fn declare(k: &mut Kernel, max_entries: u32, flags: u32, pinning: u32) -> (r: DevMap)
        requires
            old(k).wf(),
            max_entries >= 1,
        ensures
            final(k).wf(),
            r.def == DevMap::spec_def(max_entries, flags, pinning),
            r.bound(*final(k)),
            old(k).created_at(*final(k), r.fd as int, r.def),
    {
        let def = TableDef {
            map_type: BPF_MAP_TYPE_DEVMAP,
            key_size: REDIRECT_KEY_SIZE,
            value_size: PLAIN_VALUE_SIZE,
            max_entries,
            map_flags: flags,
            id: 0,
            pinning,
        };
        let fd = match k.create_table(def) {
            Result::Ok(fd) => fd,
            Result::Err(_) => {
                proof {
                    assert(false);
                }
                0
            },
        };
        DevMap { def, fd }
    }

    /// What [`DevMap::get`] returns under kernel state `k`: the target
    /// device index stored at `index`, or nothing for an empty slot.
    pub open spec fn spec_get(self, k: Kernel, index: u32) -> Option<u32> {
        if k.table_contents(self.fd as int).contains_key(index) {
            Some(le_u32(k.table_contents(self.fd as int)[index]))
        } else {
            None
        }
    }

    /// Looks the slot at `index` up.  A failed kernel-side lookup is
    /// not a recoverable error in the restricted context: it simply
    /// yields nothing.
    pub fn get(&self, k: &Kernel, index: u32) -> (r: Option<u32>)
        requires
            k.wf(),
            self.wf(*k),
        ensures
            r == self.spec_get(*k, index),
    {
        let keyb = u32_to_le(index);
        proof {
            lemma_le_u32_of_u32_le(index);
        }
        match k.lookup_elem(self.fd, &keyb, 0) {
            Result::Ok(Option::Some(v)) => {
                proof {
                    lemma_table_value_size(*k, self.fd as int, index);
                    assert(v@.subrange(0, 4) =~= v@);
                }
                Some(le_to_u32_at(&v, 0))
            },
            Result::Ok(Option::None) => None,
            Result::Err(_) => {
                proof {
                    assert(false);
                }
                None
            },
        }
    }

    /// Redirects the packet being processed to the device at `index`,
    /// or falls back to the action encoded in `flags` when the slot is
    /// empty.
    pub fn redirect(&self, k: &Kernel, index: u32, flags: u64) -> (r: u32)
        ensures
            r == k.spec_redirect(self.fd as int, index, flags),
    {
        k.redirect_map(self.fd, index, flags)
    }
}

} // verus!
