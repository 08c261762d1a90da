//! The error taxonomy and the shared validation run before any system
//! call.
//!
//! Size mismatches are caught once, when a handle is constructed, and
//! index bounds are caught before a system call is issued, so both are
//! diagnosed locally and precisely instead of surfacing as an opaque
//! kernel rejection.

use vstd::prelude::*;

use crate::defs::TableDef;

verus! {

/// The system call whose failure a [`MapError::SyscallError`] reports.
#[derive(Clone, Copy, Debug, PartialEq, Eq, Structural)]
pub enum Syscall {
    /// The element-read primitive.
    MapLookupElem,
    /// The element-write primitive.
    MapUpdateElem,
    /// The element-delete primitive.
    MapDeleteElem,
    /// The key-iteration primitive.
    MapGetNextKey,
}

/// Everything a table operation can fail with.
#[derive(Clone, Copy, Debug, PartialEq, Eq, Structural)]
pub enum MapError {
    /// The caller's key size disagrees with the table's declared key
    /// size.  Detected at handle construction, never at use time.
    InvalidKeySize { size: u32, expected: u32 },
    /// The caller's value size disagrees with the table's declared value
    /// size.  Detected at handle construction, never at use time.
    InvalidValueSize { size: u32, expected: u32 },
    /// The table reference does not name a live kernel table.
    NotCreated,
    /// The table's declared type tag is not the kind this handle is
    /// for.  Detected at handle construction, never at use time.
    InvalidMapType { map_type: u32 },
    /// An index at or beyond a dense table's declared capacity.
    /// Detected before any system call is issued.
    OutOfBounds { index: u32, max_entries: u32 },
    /// The kernel reports no entry for the key: a normal "absent"
    /// outcome, distinguished from a failing system call.
    KeyNotFound,
    /// Any other kernel rejection, tagged with the failing call and the
    /// underlying OS error code.
    SyscallError { call: Syscall, io_error: i32 },
}

/// Compares the caller's key and value sizes with a table's declared
/// sizes.
///
/// This runs once, when a handle is constructed, before any other
/// operation is permitted; a mismatch is always surfaced and never
/// retried.
pub fn check_kv_size(def: &TableDef, key_size: u32, value_size: u32) -> (r: Result<(), MapError>)
    ensures
        r == spec_check_kv_size(*def, key_size, value_size),
        r is Ok <==> key_size == def.key_size && value_size == def.value_size,
{
    if key_size != def.key_size {
        Err(MapError::InvalidKeySize { size: key_size, expected: def.key_size })
    } else if value_size != def.value_size {
        Err(MapError::InvalidValueSize { size: value_size, expected: def.value_size })
    } else {
        Ok(())
    }
}

/// What [`check_kv_size`] returns.
pub open spec fn spec_check_kv_size(def: TableDef, key_size: u32, value_size: u32) -> Result<
    (),
    MapError,
> {
    if key_size != def.key_size {
        Err(MapError::InvalidKeySize { size: key_size, expected: def.key_size })
    } else if value_size != def.value_size {
        Err(MapError::InvalidValueSize { size: value_size, expected: def.value_size })
    } else {
        Ok(())
    }
}

/// Compares an index with a dense table's declared capacity, without
/// touching the kernel.
pub fn check_bounds(def: &TableDef, index: u32) -> (r: Result<(), MapError>)
    ensures
        r == spec_check_bounds(*def, index),
        r is Ok <==> index < def.max_entries,
{
    if index >= def.max_entries {
        Err(MapError::OutOfBounds { index, max_entries: def.max_entries })
    } else {
        Ok(())
    }
}

/// What [`check_bounds`] returns.
pub open spec fn spec_check_bounds(def: TableDef, index: u32) -> Result<(), MapError> {
    if index >= def.max_entries {
        Err(MapError::OutOfBounds { index, max_entries: def.max_entries })
    } else {
        Ok(())
    }
}

} // verus!
