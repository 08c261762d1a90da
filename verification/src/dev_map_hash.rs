//! The control-plane handle for a hash-indexed table of network
//! devices.
//!
//! Entries map a sparse key to a target device index and, optionally, a
//! chained program run before transmission.  Unlike the dense tables
//! there is no fixed key range, so no index bound is checked locally;
//! only the entry count is bounded by the declared capacity, and that
//! by the kernel.

use vstd::prelude::*;

use crate::codec::{le_to_u32_at, le_u32, lemma_le_u32_of_u32_le, lemma_two_u32_le_parts,
    two_u32_le, two_u32_to_le, u32_le, u32_to_le};
use crate::defs::{TableDef, BPF_MAP_TYPE_DEVMAP_HASH, CHAINED_VALUE_SIZE, REDIRECT_KEY_SIZE};
use crate::errors::{check_kv_size, spec_check_kv_size, MapError, Syscall};
use crate::kernel::{
    lemma_table_keys_unique, lemma_table_value_size, program_field_of, spec_program_field,
    written_program_id, Kernel, ProgramFd,
};

verus! {

/// What a read of a device-table entry yields: the target device index
/// and the *global identifier* of the chained program (zero when none
/// is configured) — the read-side form of the slot that was written as
/// a process-local handle.
#[derive(Clone, Copy, Debug, PartialEq, Eq, Structural)]
pub struct DevMapValue {
    /// Index of the device packets are transmitted by.
    pub ifindex: u32,
    /// Global identifier of the chained program, or zero for none.
    pub prog_id: u32,
}

/// A validated handle to a live hash-indexed device table.
#[derive(Clone, Copy, Debug, PartialEq, Eq, Structural)]
pub struct DevMapHash {
    /// Handle of the underlying kernel table.
    pub fd: usize,
    /// The declared layout, copied at construction.
    pub def: TableDef,
}

impl DevMapHash {
    /// The handle is validated against kernel state `k`.
    pub open spec fn wf(self, k: Kernel) -> bool {
        &&& k.wf()
        &&& k.is_table(self.fd as int)
        &&& k.table_def(self.fd as int) == self.def
        &&& self.def.map_type == BPF_MAP_TYPE_DEVMAP_HASH
        &&& self.def.key_size == REDIRECT_KEY_SIZE
        &&& self.def.value_size == CHAINED_VALUE_SIZE
    }

    /// What construction yields for table `fd` of kernel `k`.
    pub open spec fn spec_new(k: Kernel, fd: usize) -> Result<DevMapHash, MapError> {
        if !k.is_table(fd as int) {
            Err(MapError::NotCreated)
        } else if k.table_def(fd as int).map_type != BPF_MAP_TYPE_DEVMAP_HASH {
            Err(MapError::InvalidMapType { map_type: k.table_def(fd as int).map_type })
        } else {
            match spec_check_kv_size(
                k.table_def(fd as int),
                REDIRECT_KEY_SIZE,
                CHAINED_VALUE_SIZE,
            ) {
                Result::Err(e) => Err(e),
                Result::Ok(()) => Ok(DevMapHash { fd, def: k.table_def(fd as int) }),
            }
        }
    }

    /// Validates table `fd` as a hash-indexed device table and wraps
    /// it.  A declared key or value size differing from the expected
    /// ones fails with a size-mismatch error and nothing else is done.
    pub fn new(k: &Kernel, fd: usize) -> (r: Result<DevMapHash, MapError>)
        requires
            k.wf(),
        ensures
            r == DevMapHash::spec_new(*k, fd),
            r matches Ok(m) ==> m.wf(*k) && m.fd == fd,
    {
        if fd >= k.tables.len() {
            return Err(MapError::NotCreated);
        }
        let def = k.tables[fd].def;
        if def.map_type != BPF_MAP_TYPE_DEVMAP_HASH {
            return Err(MapError::InvalidMapType { map_type: def.map_type });
        }
        match check_kv_size(&def, REDIRECT_KEY_SIZE, CHAINED_VALUE_SIZE) {
            Result::Err(e) => Err(e),
            Result::Ok(()) => Ok(DevMapHash { fd, def }),
        }
    }

    /// What [`DevMapHash::get`] returns for `key` under kernel state
    /// `k`.  There is no bounds pre-check: a sparse table has no fixed
    /// key range.
    pub open spec fn spec_get(self, k: Kernel, key: u32, flags: u64) -> Result<
        DevMapValue,
        MapError,
    > {
        if flags != 0 {
            Err(MapError::SyscallError {
                call: Syscall::MapLookupElem,
                io_error: crate::defs::EINVAL,
            })
        } else if !k.table_contents(self.fd as int).contains_key(key) {
            Err(MapError::KeyNotFound)
        } else {
            let v = k.table_contents(self.fd as int)[key];
            Ok(DevMapValue { ifindex: le_u32(v.subrange(0, 4)), prog_id: le_u32(v.subrange(4, 8)) })
        }
    }

    /// Returns the target device index and chained-program identifier
    /// stored for `key`, or a not-found error for an absent key.
    pub fn get(&self, k: &Kernel, key: u32, flags: u64) -> (r: Result<DevMapValue, MapError>)
        requires
            self.wf(*k),
        ensures
            r == self.spec_get(*k, key, flags),
    {
        let keyb = u32_to_le(key);
        proof {
            lemma_le_u32_of_u32_le(key);
        }
        match k.lookup_elem(self.fd, &keyb, flags) {
            Result::Err(e) => Err(MapError::SyscallError { call: Syscall::MapLookupElem, io_error: e }),
            Result::Ok(Option::None) => Err(MapError::KeyNotFound),
            Result::Ok(Option::Some(v)) => {
                proof {
                    lemma_table_value_size(*k, self.fd as int, key);
                }
                let ifindex = le_to_u32_at(&v, 0);
                let prog_id = le_to_u32_at(&v, 4);
                Ok(DevMapValue { ifindex, prog_id })
            },
        }
    }

    /// What [`DevMapHash::insert`] returns under kernel state `k`.
    pub open spec fn spec_insert(
        self,
        k: Kernel,
        key: u32,
        ifindex: u32,
        program: Option<ProgramFd>,
        flags: u64,
    ) -> Result<(), MapError> {
        match k.update_check(
            self.fd as int,
            u32_le(key),
            two_u32_le(ifindex, spec_program_field(program)),
            flags,
        ) {
            Result::Err(e) => Err(MapError::SyscallError {
                call: Syscall::MapUpdateElem,
                io_error: e,
            }),
            Result::Ok(_) => Ok(()),
        }
    }

    /// Inserts a target device index under `key`, optionally chaining a
    /// program run before transmission.
    ///
    /// The chained-program field is written in its handle form (zero
    /// when `program` is none) and normalized by the kernel to the
    /// program's global identifier.  Kernel rejections — invalid flags,
    /// a handle naming no program, a full table — surface as tagged
    /// system-call failures.
    pub fn insert(
        &mut self,
        k: &mut Kernel,
        key: u32,
        ifindex: u32,
        program: Option<ProgramFd>,
        flags: u64,
    ) -> (r: Result<(), MapError>)
        requires
            old(self).wf(*old(k)),
        ensures
            *final(self) == *old(self),
            final(self).wf(*final(k)),
            r == old(self).spec_insert(*old(k), key, ifindex, program, flags),
            r is Ok ==> old(k).updated_at(
                *final(k),
                old(self).fd as int,
                key,
                two_u32_le(ifindex, written_program_id(*old(k), program)),
            ),
            r is Err ==> *final(k) == *old(k),
    {
        let keyb = u32_to_le(key);
        let field = program_field_of(program);
        let valb = two_u32_to_le(ifindex, field);
        proof {
            lemma_le_u32_of_u32_le(key);
            lemma_two_u32_le_parts(ifindex, field);
            lemma_two_u32_le_parts(ifindex, written_program_id(*k, program));
            lemma_le_u32_of_u32_le(field);
        }
        match k.update_elem(self.fd, &keyb, &valb, flags) {
            Result::Err(e) => Err(MapError::SyscallError { call: Syscall::MapUpdateElem, io_error: e }),
            Result::Ok(()) => Ok(()),
        }
    }

    /// What [`DevMapHash::remove`] returns under kernel state `k`.
    pub open spec fn spec_remove(self, k: Kernel, key: u32) -> Result<(), MapError> {
        match k.delete_check(self.fd as int, u32_le(key)) {
            Result::Err(e) => Err(MapError::SyscallError {
                call: Syscall::MapDeleteElem,
                io_error: e,
            }),
            Result::Ok(()) => Ok(()),
        }
    }

    /// Removes the entry stored under `key`.  The kernel's own
    /// classification is propagated: deleting an absent key is the
    /// kernel's "no entry" rejection, surfaced as a tagged system-call
    /// failure.
    pub fn remove(&mut self, k: &mut Kernel, key: u32) -> (r: Result<(), MapError>)
        requires
            old(self).wf(*old(k)),
        ensures
            *final(self) == *old(self),
            final(self).wf(*final(k)),
            r == old(self).spec_remove(*old(k), key),
            r is Ok ==> old(k).deleted_at(*final(k), old(self).fd as int, key),
            r is Err ==> *final(k) == *old(k),
    {
        let keyb = u32_to_le(key);
        proof {
            lemma_le_u32_of_u32_le(key);
        }
        match k.delete_elem(self.fd, &keyb) {
            Result::Err(e) => Err(MapError::SyscallError { call: Syscall::MapDeleteElem, io_error: e }),
            Result::Ok(()) => Ok(()),
        }
    }

    /// Every key currently stored, in the kernel's iteration order,
    /// collected by walking the key-iteration primitive from the start.
    ///
    /// The order carries no meaning for callers; it is simply the order
    /// the kernel happens to hand keys out in.
    pub fn keys(&self, k: &Kernel) -> (r: Vec<u32>)
        requires
            self.wf(*k),
        ensures
            r@ == k.table_keys(self.fd as int),
    {
        let ghost keys = k.table_keys(self.fd as int);
        proof {
            lemma_table_keys_unique(*k, self.fd as int);
        }
        let mut out: Vec<u32> = Vec::new();
        let mut cur: Option<Vec<u8>> = match k.get_next_key(self.fd, None) {
            Result::Ok(o) => o,
            Result::Err(_) => {
                proof {
                    assert(false);
                }
                None
            },
        };
        while cur.is_some()
            invariant
                self.wf(*k),
                keys == k.table_keys(self.fd as int),
                out@.len() <= keys.len(),
                out@ == keys.take(out@.len() as int),
                match cur {
                    Option::Some(b) => out@.len() < keys.len() && b@ == u32_le(
                        keys[out@.len() as int],
                    ),
                    Option::None => out@.len() == keys.len(),
                },
            decreases keys.len() - out@.len(),
        {
            let kb: Vec<u8> = match cur {
                Option::Some(b) => b,
                Option::None => Vec::new(),
            };
            let kv = le_to_u32_at(&kb, 0);
            proof {
                lemma_le_u32_of_u32_le(keys[out@.len() as int]);
                assert(kb@.subrange(0, 4) =~= kb@);
                assert(kv == keys[out@.len() as int]);
            }
            out.push(kv);
            proof {
                assert(out@ =~= keys.take(out@.len() as int));
            }
            let next = match k.get_next_key(self.fd, Some(&kb)) {
                Result::Ok(o) => o,
                Result::Err(_) => {
                    proof {
                        assert(false);
                    }
                    None
                },
            };
            proof {
                lemma_table_keys_unique(*k, self.fd as int);
                let n0 = out@.len() - 1;
                assert(keys[n0] == kv);
                assert(keys.contains(kv));
                let j = keys.index_of(kv);
                assert(0 <= j < keys.len() && keys[j] == kv);
                assert(j == n0);
            }
            cur = next;
        }
        proof {
            assert(keys.take(keys.len() as int) =~= keys);
        }
        out
    }

    /// What element `i` of [`DevMapHash::iter`] is for stored key
    /// `key`.
    pub open spec fn spec_entry(self, k: Kernel, key: u32) -> Result<(u32, DevMapValue), MapError> {
        match self.spec_get(k, key, 0) {
            Result::Ok(v) => Ok((key, v)),
            Result::Err(e) => Err(e),
        }
    }

    /// A snapshot of every entry, one element per stored key in the
    /// kernel's iteration order, each fetched individually.
    pub fn iter(&self, k: &Kernel) -> (r: Vec<Result<(u32, DevMapValue), MapError>>)
        requires
            self.wf(*k),
        ensures
            r@.len() == k.table_keys(self.fd as int).len(),
            forall|i: int|
                0 <= i < r@.len() ==> r@[i] == self.spec_entry(
                    *k,
                    k.table_keys(self.fd as int)[i],
                ),
    {
        let all = self.keys(k);
        let mut out: Vec<Result<(u32, DevMapValue), MapError>> = Vec::new();
        let mut i: usize = 0;
        while i < all.len()
            invariant
                self.wf(*k),
                all@ == k.table_keys(self.fd as int),
                i <= all@.len(),
                out@.len() == i,
                forall|j: int|
                    0 <= j < i ==> out@[j] == self.spec_entry(
                        *k,
                        k.table_keys(self.fd as int)[j],
                    ),
            decreases all@.len() - i,
        {
            let key = all[i];
            match self.get(k, key, 0) {
                Result::Ok(v) => out.push(Ok((key, v))),
                Result::Err(e) => out.push(Err(e)),
            }
            i = i + 1;
        }
        out
    }
}

/// For any key, inserting a target index with no chained program and
/// reading the key back yields that target index and the
/// absent-program indicator (identifier zero).
pub proof fn lemma_dev_insert_then_get_no_program(
    m: DevMapHash,
    k: Kernel,
    k2: Kernel,
    key: u32,
    ifindex: u32,
)
    requires
        m.wf(k),
        k.updated_at(k2, m.fd as int, key, two_u32_le(ifindex, written_program_id(k, None))),
    ensures
        m.spec_get(k2, key, 0) == Ok::<DevMapValue, MapError>(
            DevMapValue { ifindex, prog_id: 0 },
        ),
{
    lemma_two_u32_le_parts(ifindex, 0);
    lemma_le_u32_of_u32_le(ifindex);
    lemma_le_u32_of_u32_le(0);
    assert(written_program_id(k, None) == 0);
}

/// Inserting an entry with a chained-program handle and reading the key
/// back yields the program identifier the kernel reports for that
/// handle.
pub proof fn lemma_dev_insert_then_get_chained(
    m: DevMapHash,
    k: Kernel,
    k2: Kernel,
    key: u32,
    ifindex: u32,
    p: ProgramFd,
)
    requires
        m.wf(k),
        k.spec_program_id(p.fd) is Some,
        k.updated_at(k2, m.fd as int, key, two_u32_le(ifindex, written_program_id(k, Some(p)))),
    ensures
        k.spec_program_id(p.fd) matches Some(id) ==> m.spec_get(k2, key, 0) == Ok::<
            DevMapValue,
            MapError,
        >(DevMapValue { ifindex, prog_id: id }),
{
    let id = written_program_id(k, Some(p));
    lemma_two_u32_le_parts(ifindex, id);
    lemma_le_u32_of_u32_le(ifindex);
    lemma_le_u32_of_u32_le(id);
    assert(p.fd >= 3 && k.prog_registered(p.fd as u32));
    assert(spec_program_field(Some(p)) == p.fd as u32);
    assert(id == k.prog_id_of(p.fd as u32));
}

/// Removing a key leaves it absent: a subsequent read reports
/// not-found.
pub proof fn lemma_dev_remove_then_get(m: DevMapHash, k: Kernel, k2: Kernel, key: u32)
    requires
        m.wf(k),
        k.deleted_at(k2, m.fd as int, key),
    ensures
        m.spec_get(k2, key, 0) == Err::<DevMapValue, MapError>(MapError::KeyNotFound),
{
    assert(!k2.table_contents(m.fd as int).contains_key(key));
}

} // verus!
