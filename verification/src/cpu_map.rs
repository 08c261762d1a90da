//! The control-plane handle for a dense table of CPUs.
//!
//! Populating the table directs which CPUs packets may be redirected to
//! for processing, each entry giving the queue depth the kernel will
//! buffer for that CPU and, optionally, a chained program to run on the
//! target CPU.

use vstd::prelude::*;

use crate::codec::{le_u32, lemma_le_u32_of_u32_le, lemma_two_u32_le_parts, two_u32_le,
    two_u32_to_le, u32_le, u32_to_le, le_to_u32_at};
use crate::defs::{TableDef, BPF_MAP_TYPE_CPUMAP, CHAINED_VALUE_SIZE, REDIRECT_KEY_SIZE};
use crate::errors::{check_bounds, check_kv_size, spec_check_kv_size, MapError, Syscall};
use crate::kernel::{
    lemma_table_value_size, program_field_of, spec_program_field, written_program_id, Kernel,
    ProgramFd,
};

verus! {

/// What a read of a CPU-table entry yields: the queue size, and the
/// *global identifier* of the chained program (zero when none is
/// configured).  The identifier is the read-side form of the same slot
/// that is written as a process-local handle; the two are never
/// comparable byte-for-byte.
#[derive(Clone, Copy, Debug, PartialEq, Eq, Structural)]
pub struct CpuMapValue {
    /// How many packets the kernel queues for the CPU before dropping.
    pub qsize: u32,
    /// Global identifier of the chained program, or zero for none.
    pub prog_id: u32,
}

/// A validated handle to a live CPU table.
///
/// Construction checks the caller's key and value sizes against the
/// table's declared layout once, so no later operation can confuse
/// types.  The handle caches the declared layout; index bounds are
/// checked against it locally, before any system call.
#[derive(Clone, Copy, Debug, PartialEq, Eq, Structural)]
pub struct CpuMap {
    /// Handle of the underlying kernel table.
    pub fd: usize,
    /// The declared layout, copied at construction.
    pub def: TableDef,
}

impl CpuMap {
    /// The handle is validated against kernel state `k`: the table is
    /// live, is a CPU table with the expected element sizes, and the
    /// cached layout is the declared one.
    pub open spec fn wf(self, k: Kernel) -> bool {
        &&& k.wf()
        &&& k.is_table(self.fd as int)
        &&& k.table_def(self.fd as int) == self.def
        &&& self.def.map_type == BPF_MAP_TYPE_CPUMAP
        &&& self.def.key_size == REDIRECT_KEY_SIZE
        &&& self.def.value_size == CHAINED_VALUE_SIZE
    }

    /// What construction yields for table `fd` of kernel `k`.
    pub open spec fn spec_new(k: Kernel, fd: usize) -> Result<CpuMap, MapError> {
        if !k.is_table(fd as int) {
            Err(MapError::NotCreated)
        } else if k.table_def(fd as int).map_type != BPF_MAP_TYPE_CPUMAP {
            Err(MapError::InvalidMapType { map_type: k.table_def(fd as int).map_type })
        } else {
            match spec_check_kv_size(
                k.table_def(fd as int),
                REDIRECT_KEY_SIZE,
                CHAINED_VALUE_SIZE,
            ) {
                Result::Err(e) => Err(e),
                Result::Ok(()) => Ok(CpuMap { fd, def: k.table_def(fd as int) }),
            }
        }
    }

    /// Validates table `fd` as a CPU table and wraps it.
    ///
    /// Fails with a missing-handle error when `fd` names no live table,
    /// with a type error when the table is not a CPU table, or with a
    /// size-mismatch error when the declared key or value size differs
    /// from the expected ones; nothing else is done in any of these
    /// cases.
    pub fn new(k: &Kernel, fd: usize) -> (r: Result<CpuMap, MapError>)
        requires
            k.wf(),
        ensures
            r == CpuMap::spec_new(*k, fd),
            r matches Ok(m) ==> m.wf(*k) && m.fd == fd,
    {
        if fd >= k.tables.len() {
            return Err(MapError::NotCreated);
        }
        let def = k.tables[fd].def;
        if def.map_type != BPF_MAP_TYPE_CPUMAP {
            return Err(MapError::InvalidMapType { map_type: def.map_type });
        }
        match check_kv_size(&def, REDIRECT_KEY_SIZE, CHAINED_VALUE_SIZE) {
            Result::Err(e) => Err(e),
            Result::Ok(()) => Ok(CpuMap { fd, def }),
        }
    }

    /// The number of slots in the table: its declared capacity, cached
    /// at construction.  No system call is issued.
    pub fn len(&self) -> (r: u32)
        ensures
            r == self.def.max_entries,
    {
        self.def.max_entries
    }

    /// What [`CpuMap::get`] returns for index `cpu_index` under kernel
    /// state `k`.
    pub open spec fn spec_get(self, k: Kernel, cpu_index: u32, flags: u64) -> Result<
        CpuMapValue,
        MapError,
    > {
        if cpu_index >= self.def.max_entries {
            Err(MapError::OutOfBounds { index: cpu_index, max_entries: self.def.max_entries })
        } else if flags != 0 {
            Err(MapError::SyscallError {
                call: Syscall::MapLookupElem,
                io_error: crate::defs::EINVAL,
            })
        } else if !k.table_contents(self.fd as int).contains_key(cpu_index) {
            Err(MapError::KeyNotFound)
        } else {
            let v = k.table_contents(self.fd as int)[cpu_index];
            Ok(CpuMapValue { qsize: le_u32(v.subrange(0, 4)), prog_id: le_u32(v.subrange(4, 8)) })
        }
    }

    /// Returns the queue size and chained-program identifier stored for
    /// a CPU index.
    ///
    /// An index at or beyond the capacity fails out of bounds before
    /// any system call; an empty slot is reported as not found; any
    /// other kernel rejection is a tagged system-call failure.
    pub fn get(&self, k: &Kernel, cpu_index: u32, flags: u64) -> (r: Result<CpuMapValue, MapError>)
        requires
            self.wf(*k),
        ensures
            r == self.spec_get(*k, cpu_index, flags),
    {
        match check_bounds(&self.def, cpu_index) {
            Result::Err(e) => {
                return Err(e);
            },
            Result::Ok(()) => {},
        }
        let keyb = u32_to_le(cpu_index);
        proof {
            lemma_le_u32_of_u32_le(cpu_index);
        }
        match k.lookup_elem(self.fd, &keyb, flags) {
            Result::Err(e) => Err(MapError::SyscallError { call: Syscall::MapLookupElem, io_error: e }),
            Result::Ok(Option::None) => Err(MapError::KeyNotFound),
            Result::Ok(Option::Some(v)) => {
                proof {
                    lemma_table_value_size(*k, self.fd as int, cpu_index);
                }
                let qsize = le_to_u32_at(&v, 0);
                let prog_id = le_to_u32_at(&v, 4);
                Ok(CpuMapValue { qsize, prog_id })
            },
        }
    }

    /// An in-order snapshot of every slot: element `i` is exactly what
    /// [`CpuMap::get`] returns for index `i`, and there are exactly as
    /// many elements as the table has slots.
    pub fn iter(&self, k: &Kernel) -> (r: Vec<Result<CpuMapValue, MapError>>)
        requires
            self.wf(*k),
        ensures
            r@.len() == self.def.max_entries,
            forall|i: int| 0 <= i < r@.len() ==> r@[i] == self.spec_get(*k, i as u32, 0),
    {
        let mut out: Vec<Result<CpuMapValue, MapError>> = Vec::new();
        let mut i: u32 = 0;
        while i < self.def.max_entries
            invariant
                self.wf(*k),
                i <= self.def.max_entries,
                out@.len() == i,
                forall|j: int| 0 <= j < i ==> out@[j] == self.spec_get(*k, j as u32, 0),
            decreases self.def.max_entries - i,
        {
            out.push(self.get(k, i, 0));
            i = i + 1;
        }
        out
    }

    /// What [`CpuMap::set`] returns under kernel state `k`.
    pub open spec fn spec_set(
        self,
        k: Kernel,
        cpu_index: u32,
        queue_size: u32,
        program: Option<ProgramFd>,
        flags: u64,
    ) -> Result<(), MapError> {
        if cpu_index >= self.def.max_entries {
            Err(MapError::OutOfBounds { index: cpu_index, max_entries: self.def.max_entries })
        } else {
            match k.update_check(
                self.fd as int,
                u32_le(cpu_index),
                two_u32_le(queue_size, spec_program_field(program)),
                flags,
            ) {
                Result::Err(e) => Err(MapError::SyscallError {
                    call: Syscall::MapUpdateElem,
                    io_error: e,
                }),
                Result::Ok(_) => Ok(()),
            }
        }
    }

    /// Sets the queue size for a CPU index, optionally chaining a
    /// program to run on that CPU.
    ///
    /// The chained-program field is written in its handle form (zero
    /// when `program` is none); the kernel normalizes it, so a
    /// successful write stores the payload word followed by the
    /// program's global identifier.  An index at or beyond the capacity
    /// fails out of bounds and the kernel is left untouched.
    pub fn set(
        &mut self,
        k: &mut Kernel,
        cpu_index: u32,
        queue_size: u32,
        program: Option<ProgramFd>,
        flags: u64,
    ) -> (r: Result<(), MapError>)
        requires
            old(self).wf(*old(k)),
        ensures
            *final(self) == *old(self),
            final(self).wf(*final(k)),
            r == old(self).spec_set(*old(k), cpu_index, queue_size, program, flags),
            r is Ok ==> old(k).updated_at(
                *final(k),
                old(self).fd as int,
                cpu_index,
                two_u32_le(queue_size, written_program_id(*old(k), program)),
            ),
            r is Err ==> *final(k) == *old(k),
    {
        match check_bounds(&self.def, cpu_index) {
            Result::Err(e) => {
                return Err(e);
            },
            Result::Ok(()) => {},
        }
        let keyb = u32_to_le(cpu_index);
        let field = program_field_of(program);
        let valb = two_u32_to_le(queue_size, field);
        proof {
            lemma_le_u32_of_u32_le(cpu_index);
            lemma_two_u32_le_parts(queue_size, field);
            lemma_two_u32_le_parts(queue_size, written_program_id(*k, program));
            lemma_le_u32_of_u32_le(field);
        }
        match k.update_elem(self.fd, &keyb, &valb, flags) {
            Result::Err(e) => Err(MapError::SyscallError { call: Syscall::MapUpdateElem, io_error: e }),
            Result::Ok(()) => Ok(()),
        }
    }
}

/// For every valid index, writing a queue size with no chained program
/// and reading the same index back yields that queue size and the
/// absent-program indicator (identifier zero).
pub proof fn lemma_cpu_set_then_get_no_program(
    m: CpuMap,
    k: Kernel,
    k2: Kernel,
    cpu_index: u32,
    queue_size: u32,
)
    requires
        m.wf(k),
        cpu_index < m.def.max_entries,
        k.updated_at(
            k2,
            m.fd as int,
            cpu_index,
            two_u32_le(queue_size, written_program_id(k, None)),
        ),
    ensures
        m.spec_set(k, cpu_index, queue_size, None, 0) is Ok,
        m.spec_get(k2, cpu_index, 0) == Ok::<CpuMapValue, MapError>(
            CpuMapValue { qsize: queue_size, prog_id: 0 },
        ),
{
    lemma_two_u32_le_parts(queue_size, 0);
    lemma_le_u32_of_u32_le(queue_size);
    lemma_le_u32_of_u32_le(0);
    assert(spec_program_field(None) == 0);
    assert(written_program_id(k, None) == 0);
}

/// Writing an entry with a chained-program handle and reading the index
/// back yields the program identifier the kernel reports for that
/// handle — the handle itself is never what comes back.
pub proof fn lemma_cpu_set_then_get_chained(
    m: CpuMap,
    k: Kernel,
    k2: Kernel,
    cpu_index: u32,
    queue_size: u32,
    p: ProgramFd,
)
    requires
        m.wf(k),
        cpu_index < m.def.max_entries,
        k.spec_program_id(p.fd) is Some,
        k.updated_at(
            k2,
            m.fd as int,
            cpu_index,
            two_u32_le(queue_size, written_program_id(k, Some(p))),
        ),
    ensures
        m.spec_set(k, cpu_index, queue_size, Some(p), 0) is Ok,
        k.spec_program_id(p.fd) matches Some(id) ==> m.spec_get(k2, cpu_index, 0) == Ok::<
            CpuMapValue,
            MapError,
        >(CpuMapValue { qsize: queue_size, prog_id: id }),
{
    let slot = spec_program_field(Some(p));
    let id = written_program_id(k, Some(p));
    let value = two_u32_le(queue_size, slot);
    let stored = two_u32_le(queue_size, id);
    assert(p.fd >= 3 && k.prog_registered(p.fd as u32));
    assert(slot == p.fd as u32);
    assert(!crate::kernel::slot_is_null(slot));
    assert(id == k.prog_id_of(slot));
    lemma_two_u32_le_parts(queue_size, slot);
    lemma_two_u32_le_parts(queue_size, id);
    lemma_le_u32_of_u32_le(slot);
    lemma_le_u32_of_u32_le(id);
    lemma_le_u32_of_u32_le(queue_size);
    lemma_le_u32_of_u32_le(cpu_index);
    assert(k.normalized_value(m.def, value) == Ok::<Seq<u8>, i32>(
        value.subrange(0, 4) + u32_le(id),
    ));
    assert(value.subrange(0, 4) + u32_le(id) =~= stored);
    assert(k.update_check(m.fd as int, u32_le(cpu_index), value, 0) == Ok::<Seq<u8>, i32>(stored));
    assert(k2.table_contents(m.fd as int).contains_key(cpu_index));
    assert(k2.table_contents(m.fd as int)[cpu_index] == stored);
    assert(le_u32(stored.subrange(0, 4)) == queue_size);
    assert(le_u32(stored.subrange(4, 8)) == id);
}

} // verus!
