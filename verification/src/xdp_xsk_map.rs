//! The restricted-side descriptor of a dense table of user-space
//! socket slots.
//!
//! The restricted program only redirects into this table; what a slot
//! holds is an opaque kernel record, never decoded here — lookup hands
//! the raw entry back as it is stored.

use vstd::prelude::*;

use crate::codec::{lemma_le_u32_of_u32_le, u32_to_le};
use crate::defs::{TableDef, BPF_MAP_TYPE_XSKMAP, PIN_BY_NAME, PIN_NONE, PLAIN_VALUE_SIZE,
    REDIRECT_KEY_SIZE};
use crate::kernel::Kernel;

verus! {

/// A dense table of waiting user-space socket slots, declared by the
/// restricted program so that it can redirect the packet being
/// processed to a socket.
#[derive(Clone, Copy, Debug, PartialEq, Eq, Structural)]
pub struct XskMap {
    /// The embedded layout record.
    pub def: TableDef,
    /// Handle of the kernel table the loader created for the record.
    pub fd: usize,
}

impl XskMap {
    /// The layout record a socket-table declaration embeds: one `u32`
    /// key per slot and one word of value.
    pub open spec fn spec_def(max_entries: u32, flags: u32, pinning: u32) -> TableDef {
        TableDef {
            map_type: BPF_MAP_TYPE_XSKMAP,
            key_size: REDIRECT_KEY_SIZE,
            value_size: PLAIN_VALUE_SIZE,
            max_entries,
            map_flags: flags,
            id: 0,
            pinning,
        }
    }

    /// The descriptor is bound to a live kernel table that carries
    /// exactly its layout.
    pub open spec fn bound(self, k: Kernel) -> bool {
        &&& k.is_table(self.fd as int)
        &&& k.table_def(self.fd as int) == self.def
    }

    /// A bound descriptor whose layout has the declared socket-table
    /// shape: `u32` keys and one word of value.
    pub open spec fn wf(self, k: Kernel) -> bool {
        &&& self.bound(k)
        &&& self.def.key_size == REDIRECT_KEY_SIZE
        &&& self.def.value_size == PLAIN_VALUE_SIZE
    }

    /// Declares a socket table with the given capacity and flag bits,
    /// not pinned.  All layout fields are fixed here and never change.
    pub fn with_max_entries(k: &mut Kernel, max_entries: u32, flags: u32) -> (r: XskMap)
        requires
            old(k).wf(),
            max_entries >= 1,
        ensures
            final(k).wf(),
            r.def == XskMap::spec_def(max_entries, flags, PIN_NONE),
            r.bound(*final(k)),
            old(k).created_at(*final(k), r.fd as int, r.def),
    {
        Self::declare(k, max_entries, flags, PIN_NONE)
    }

    /// Declares a socket table that asks to be pinned by name.
    pub fn pinned(k: &mut Kernel, max_entries: u32, flags: u32) -> (r: XskMap)
        requires
            old(k).wf(),
            max_entries >= 1,
        ensures
            final(k).wf(),
            r.def == XskMap::spec_def(max_entries, flags, PIN_BY_NAME),
            r.bound(*final(k)),
            old(k).created_at(*final(k), r.fd as int, r.def),
    {
        Self::declare(k, max_entries, flags, PIN_BY_NAME)
    }

    fn declare(k: &mut Kernel, max_entries: u32, flags: u32, pinning: u32) -> (r: XskMap)
        requires
            old(k).wf(),
            max_entries >= 1,
        ensures
            final(k).wf(),
            r.def == XskMap::spec_def(max_entries, flags, pinning),
            r.bound(*final(k)),
            old(k).created_at(*final(k), r.fd as int, r.def),
    {
        let def = TableDef {
            map_type: BPF_MAP_TYPE_XSKMAP,
            key_size: REDIRECT_KEY_SIZE,
            value_size: PLAIN_VALUE_SIZE,
            max_entries,
            map_flags: flags,
            id: 0,
            pinning,
        };
        let fd = match k.create_table(def) {
            Result::Ok(fd) => fd,
            Result::Err(_) => {
                proof {
                    assert(false);
                }
                0
            },
        };
        XskMap { def, fd }
    }

    /// Looks the slot at `index` up, yielding a copy of the opaque
    /// kernel record stored there, or nothing for an empty slot.
    /// Nothing in scope decodes the record.
    pub fn get(&self, k: &Kernel, index: u32) -> (r: Option<Vec<u8>>)
        requires
            k.wf(),
            self.wf(*k),
        ensures
            match r {
                Option::Some(v) => k.table_contents(self.fd as int).contains_key(index) && v@
                    == k.table_contents(self.fd as int)[index],
                Option::None => !k.table_contents(self.fd as int).contains_key(index),
            },
    {
        let keyb = u32_to_le(index);
        proof {
            lemma_le_u32_of_u32_le(index);
        }
        match k.lookup_elem(self.fd, &keyb, 0) {
            Result::Ok(o) => o,
            Result::Err(_) => {
                proof {
                    assert(false);
                }
                None
            },
        }
    }

    /// Redirects the packet being processed to the socket at `index`,
    /// or falls back to the action encoded in `flags` when the slot is
    /// empty.
    pub fn redirect(&self, k: &Kernel, index: u32, flags: u64) -> (r: u32)
        ensures
            r == k.spec_redirect(self.fd as int, index, flags),
    {
        k.redirect_map(self.fd, index, flags)
    }
}

} // verus!
