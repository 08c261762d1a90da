//! Table descriptors and the numeric constants shared with the kernel.

use vstd::prelude::*;

verus! {

/// Type tag of a dense table of CPUs (`BPF_MAP_TYPE_CPUMAP`).
pub const BPF_MAP_TYPE_CPUMAP: u32 = 16;

/// Type tag of a dense table of network devices (`BPF_MAP_TYPE_DEVMAP`).
pub const BPF_MAP_TYPE_DEVMAP: u32 = 14;

/// Type tag of a hash-indexed table of network devices
/// (`BPF_MAP_TYPE_DEVMAP_HASH`).
pub const BPF_MAP_TYPE_DEVMAP_HASH: u32 = 25;

/// Type tag of a dense table of user-space socket slots
/// (`BPF_MAP_TYPE_XSKMAP`).
pub const BPF_MAP_TYPE_XSKMAP: u32 = 17;

/// The descriptor asks for no pinning.
pub const PIN_NONE: u32 = 0;

/// The descriptor asks to be pinned by name.
pub const PIN_BY_NAME: u32 = 1;

/// Packet action: signal an error and drop the packet.
pub const XDP_ABORTED: u32 = 0;

/// Packet action: drop the packet silently.
pub const XDP_DROP: u32 = 1;

/// Packet action: let the packet continue up the stack.
pub const XDP_PASS: u32 = 2;

/// Packet action: retransmit the packet out of the receiving device.
pub const XDP_TX: u32 = 3;

/// Packet action: redirect the packet as a table entry directs.
pub const XDP_REDIRECT: u32 = 4;

/// Element-write flag: create the entry or overwrite an existing one.
pub const BPF_ANY: u64 = 0;

/// Element-write flag: create a new entry only.
pub const BPF_NOEXIST: u64 = 1;

/// Element-write flag: overwrite an existing entry only.
pub const BPF_EXIST: u64 = 2;

/// OS error code: no entry found.
pub const ENOENT: i32 = 2;

/// OS error code: the argument is beyond a table's limits.
pub const E2BIG: i32 = 7;

/// OS error code: a file handle is not valid.
pub const EBADF: i32 = 9;

/// OS error code: the entry already exists.
pub const EEXIST: i32 = 17;

/// OS error code: an argument is not valid.
pub const EINVAL: i32 = 22;

/// The key size every redirect table declares: one `u32` index.
pub const REDIRECT_KEY_SIZE: u32 = 4;

/// The value size of an entry that carries a chained-program field
/// beside its payload word.
pub const CHAINED_VALUE_SIZE: u32 = 8;

/// The value size of a bare payload entry (a `u32` target index or a
/// raw socket handle).
pub const PLAIN_VALUE_SIZE: u32 = 4;

/// The layout record of one redirect table: its type tag, element sizes,
/// capacity, flag bits, and pinning mode.
///
/// On the restricted side this record is embedded in the program image
/// and read by the loader to create the matching kernel table; on the
/// control-plane side it is what a handle's expectations are checked
/// against.  It is fixed when the table is created and never changes.
#[derive(Clone, Copy, Debug, PartialEq, Eq, Structural)]
pub struct TableDef {
    /// One of the four redirect-table type tags.
    pub map_type: u32,
    /// Declared size in bytes of a key.
    pub key_size: u32,
    /// Declared size in bytes of a value.
    pub value_size: u32,
    /// Declared capacity of the table.
    pub max_entries: u32,
    /// Creation flag bits, recorded but not interpreted here.
    pub map_flags: u32,
    /// Slot the loader may use to record an object identifier; zero in a
    /// fresh descriptor.
    pub id: u32,
    /// One of the pinning modes.
    pub pinning: u32,
}

/// Whether `t` is one of the four redirect-table type tags.
pub open spec fn is_redirect_map_type(t: u32) -> bool {
    ||| t == BPF_MAP_TYPE_CPUMAP
    ||| t == BPF_MAP_TYPE_DEVMAP
    ||| t == BPF_MAP_TYPE_DEVMAP_HASH
    ||| t == BPF_MAP_TYPE_XSKMAP
}

/// Whether tables of type `t` are dense: array-indexed, with every key
/// checked against the declared capacity.
pub open spec fn is_dense(t: u32) -> bool {
    ||| t == BPF_MAP_TYPE_CPUMAP
    ||| t == BPF_MAP_TYPE_DEVMAP
    ||| t == BPF_MAP_TYPE_XSKMAP
}

/// Whether an entry of a table with type `t` and the given value size
/// carries a chained-program field in its second word.
pub open spec fn carries_program(t: u32, value_size: u32) -> bool {
    &&& value_size == CHAINED_VALUE_SIZE
    &&& {
        ||| t == BPF_MAP_TYPE_CPUMAP
        ||| t == BPF_MAP_TYPE_DEVMAP
        ||| t == BPF_MAP_TYPE_DEVMAP_HASH
    }
}

/// Whether `v` is a value size the kernel accepts for a table of type
/// `t`: entries of CPU and device tables either carry a chained-program
/// field or are a bare word, socket tables hold a bare word only.
pub open spec fn valid_value_size(t: u32, v: u32) -> bool {
    if t == BPF_MAP_TYPE_XSKMAP {
        v == PLAIN_VALUE_SIZE
    } else {
        v == PLAIN_VALUE_SIZE || v == CHAINED_VALUE_SIZE
    }
}

} // verus!
