//! An in-process model of the kernel side of the subsystem.
//!
//! A live deployment reaches the kernel through the `bpf(2)` system
//! call; the tables, the loaded programs, and the per-element semantics
//! of that boundary are modeled here as one explicit state machine so
//! that everything built on top of it can be verified, and so that the
//! whole subsystem can be exercised without a live kernel.
//!
//! The model keeps the behaviour the control plane and the restricted
//! program rely on:
//!
//! - tables are keyed by a 32-bit word and store raw value bytes of the
//!   declared size;
//! - dense tables bound every written key by the declared capacity,
//!   hash-indexed tables bound only the number of entries;
//! - writing an entry whose layout carries a chained-program field
//!   normalizes it: the process-local program handle in the second word
//!   is replaced by the program's global identifier (zero when no
//!   program was named), so a read-back observes the identifier form;
//! - the redirect helper available to the restricted program returns
//!   the redirect action when the consulted slot is filled and otherwise
//!   falls back to the action encoded in its flags argument.

use vstd::prelude::*;

use crate::codec::{le_to_u32_at, le_u32, u32_le, u32_to_le};
use crate::defs::{
    carries_program, is_dense, is_redirect_map_type, valid_value_size, TableDef,
    BPF_EXIST, BPF_MAP_TYPE_CPUMAP, BPF_MAP_TYPE_DEVMAP, BPF_MAP_TYPE_DEVMAP_HASH,
    BPF_MAP_TYPE_XSKMAP, BPF_NOEXIST, CHAINED_VALUE_SIZE, E2BIG, EBADF, EEXIST, EINVAL, ENOENT,
    PLAIN_VALUE_SIZE, REDIRECT_KEY_SIZE, XDP_ABORTED, XDP_REDIRECT, XDP_TX,
};

verus! {

/// A process-local handle to a loaded chained program.
///
/// Only ever an *input* to the write side of an entry; what a read
/// returns for the same slot is the program's global identifier, never
/// this handle.
#[derive(Clone, Copy, Debug, PartialEq, Eq, Structural)]
pub struct ProgramFd {
    /// The raw handle.  Zero or negative values act as the "no program"
    /// sentinel when written into an entry.
    pub fd: i32,
}

/// One kernel-resident table: its fixed layout record and its entries,
/// as pairs of a decoded 32-bit key and the stored value bytes, in the
/// order the keys were first written.
pub struct KernelTable {
    /// The layout recorded when the table was created; never mutated.
    pub def: TableDef,
    /// The live entries.  Keys are unique; values have the declared
    /// size.
    pub entries: Vec<(u32, Vec<u8>)>,
}

/// The association of an entry list: later pairs override earlier ones,
/// though a well-formed table never repeats a key.
pub open spec fn assoc_contents(s: Seq<(u32, Vec<u8>)>) -> Map<u32, Seq<u8>>
    decreases s.len(),
{
    if s.len() == 0 {
        Map::empty()
    } else {
        assoc_contents(s.drop_last()).insert(s.last().0, s.last().1@)
    }
}

/// Whether no key repeats in the entry list `s`.
pub open spec fn unique_keys(s: Seq<(u32, Vec<u8>)>) -> bool {
    forall|i: int, j: int|
        0 <= i < j < s.len() ==> (#[trigger] s[i]).0 != (#[trigger] s[j]).0
}

/// A key is in the association exactly when some pair carries it.
pub proof fn lemma_assoc_contains(s: Seq<(u32, Vec<u8>)>, k: u32)
    ensures
        assoc_contents(s).contains_key(k) <==> exists|i: int|
            0 <= i < s.len() && (#[trigger] s[i]).0 == k,
    decreases s.len(),
{
    if s.len() == 0 {
    } else {
        lemma_assoc_contains(s.drop_last(), k);
        if s.last().0 == k {
            assert((s[s.len() - 1]).0 == k);
        } else if assoc_contents(s.drop_last()).contains_key(k) {
            let i = choose|i: int| 0 <= i < s.drop_last().len() && (#[trigger] s.drop_last()[i]).0
                == k;
            assert((s[i]).0 == k);
        } else if exists|i: int| 0 <= i < s.len() && (#[trigger] s[i]).0 == k {
            let i = choose|i: int| 0 <= i < s.len() && (#[trigger] s[i]).0 == k;
            assert(i < s.len() - 1);
            assert((s.drop_last()[i]).0 == k);
        }
    }
}

/// Under unique keys, the association maps the key of pair `i` to the
/// value bytes of pair `i`.
pub proof fn lemma_assoc_value(s: Seq<(u32, Vec<u8>)>, i: int)
    requires
        unique_keys(s),
        0 <= i < s.len(),
    ensures
        assoc_contents(s).contains_key(s[i].0),
        assoc_contents(s)[s[i].0] == s[i].1@,
    decreases s.len(),
{
    if i == s.len() - 1 {
    } else {
        assert(s.drop_last()[i] == s[i]);
        lemma_assoc_value(s.drop_last(), i);
        assert(s[i].0 != s.last().0);
    }
}

/// Overwriting the value of pair `i` in place updates the association
/// at that pair's key.
pub proof fn lemma_assoc_update(s: Seq<(u32, Vec<u8>)>, i: int, v: Vec<u8>)
    requires
        unique_keys(s),
        0 <= i < s.len(),
    ensures
        assoc_contents(s.update(i, (s[i].0, v))) == assoc_contents(s).insert(s[i].0, v@),
    decreases s.len(),
{
    let k = s[i].0;
    let s2 = s.update(i, (k, v));
    if i == s.len() - 1 {
        assert(s2.drop_last() =~= s.drop_last());
        assert(s2.last() == (k, v));
        assert(assoc_contents(s.drop_last()).insert(k, s.last().1@).insert(k, v@)
            =~= assoc_contents(s.drop_last()).insert(k, v@));
    } else {
        assert(s2.drop_last() =~= s.drop_last().update(i, (k, v)));
        assert(s.drop_last()[i] == s[i]);
        lemma_assoc_update(s.drop_last(), i, v);
        assert(s2.last() == s.last());
        assert(k != s.last().0);
        assert(assoc_contents(s.drop_last()).insert(k, v@).insert(s.last().0, s.last().1@)
            =~= assoc_contents(s.drop_last()).insert(s.last().0, s.last().1@).insert(k, v@));
    }
}

/// Removing pair `i` removes that pair's key from the association.
pub proof fn lemma_assoc_remove(s: Seq<(u32, Vec<u8>)>, i: int)
    requires
        unique_keys(s),
        0 <= i < s.len(),
    ensures
        assoc_contents(s.remove(i)) == assoc_contents(s).remove(s[i].0),
    decreases s.len(),
{
    let k = s[i].0;
    if i == s.len() - 1 {
        assert(s.remove(i) =~= s.drop_last());
        lemma_assoc_contains(s.drop_last(), k);
        assert(forall|j: int|
            0 <= j < s.drop_last().len() ==> (#[trigger] s.drop_last()[j]).0 != k);
        assert(assoc_contents(s.drop_last()).insert(k, s.last().1@).remove(k)
            =~= assoc_contents(s.drop_last()));
    } else {
        assert(s.remove(i).drop_last() =~= s.drop_last().remove(i));
        assert(s.drop_last()[i] == s[i]);
        lemma_assoc_remove(s.drop_last(), i);
        assert(s.remove(i).last() == s.last());
        assert(k != s.last().0);
        assert(assoc_contents(s.drop_last()).remove(k).insert(s.last().0, s.last().1@)
            =~= assoc_contents(s.drop_last()).insert(s.last().0, s.last().1@).remove(k));
    }
}

/// Appending a pair with a fresh or repeated key inserts it into the
/// association.
pub proof fn lemma_assoc_push(s: Seq<(u32, Vec<u8>)>, p: (u32, Vec<u8>))
    ensures
        assoc_contents(s.push(p)) == assoc_contents(s).insert(p.0, p.1@),
{
    assert(s.push(p).drop_last() =~= s);
    assert(s.push(p).last() == p);
}

impl KernelTable {
    /// The stored keys, in the order they were first written.
    pub open spec fn keys(self) -> Seq<u32> {
        self.entries@.map_values(|e: (u32, Vec<u8>)| e.0)
    }

    /// The stored entries as a map from key to value bytes.
    pub open spec fn contents(self) -> Map<u32, Seq<u8>> {
        assoc_contents(self.entries@)
    }

    /// Well-formedness: a valid layout record, unique keys, values of
    /// the declared size, dense keys bounded by the capacity, and the
    /// entry count of a hash-indexed table bounded by the capacity.
    pub open spec fn wf(self) -> bool {
        &&& is_redirect_map_type(self.def.map_type)
        &&& self.def.key_size == REDIRECT_KEY_SIZE
        &&& valid_value_size(self.def.map_type, self.def.value_size)
        &&& self.def.max_entries >= 1
        &&& unique_keys(self.entries@)
        &&& forall|i: int|
            0 <= i < self.entries@.len() ==> (#[trigger] self.entries@[i]).1@.len()
                == self.def.value_size
        &&& is_dense(self.def.map_type) ==> forall|i: int|
            0 <= i < self.entries@.len() ==> (#[trigger] self.entries@[i]).0
                < self.def.max_entries
        &&& !is_dense(self.def.map_type) ==> self.entries@.len() <= self.def.max_entries
    }
}

/// Whether a chained-program field names no program: zero, or any value
/// that is negative when reinterpreted as a signed handle.
pub open spec fn slot_is_null(slot: u32) -> bool {
    slot == 0 || slot >= 0x8000_0000
}

/// The unsigned bits of a signed 32-bit handle.
pub open spec fn i32_bits(x: i32) -> u32 {
    if x >= 0 {
        x as u32
    } else {
        ((x as int) + 0x1_0000_0000) as u32
    }
}

/// The write-side chained-program field for an optional handle: the
/// handle's raw bits, or zero for "none".
pub open spec fn spec_program_field(prog: Option<ProgramFd>) -> u32 {
    match prog {
        Option::None => 0,
        Option::Some(p) => i32_bits(p.fd),
    }
}

/// Encodes an optional program handle as the write-side value of the
/// chained-program field.
pub fn program_field_of(prog: Option<ProgramFd>) -> (r: u32)
    ensures
        r == spec_program_field(prog),
{
    match prog {
        Option::None => 0,
        Option::Some(p) => {
            if p.fd >= 0 {
                p.fd as u32
            } else {
                ((p.fd as i64) + 0x1_0000_0000i64) as u32
            }
        },
    }
}

/// The modeled kernel state: every live table, addressed by the handle
/// its creation returned, and every loaded program, addressed by a
/// process-local handle and carrying its global identifier.
pub struct Kernel {
    /// The live tables; a table handle is an index into this list.
    pub tables: Vec<KernelTable>,
    /// The global identifiers of the loaded programs.  The program with
    /// process-local handle `fd` (handles start at 3; lower handles
    /// belong to the standard streams) has identifier `prog_ids[fd - 3]`.
    pub prog_ids: Vec<u32>,
}

impl Kernel {
    /// Whether `fd` names a live table.
    pub open spec fn is_table(self, fd: int) -> bool {
        0 <= fd < self.tables@.len()
    }

    /// The layout record of table `fd`.
    pub open spec fn table_def(self, fd: int) -> TableDef {
        self.tables@[fd].def
    }

    /// The entries of table `fd`, as a map from key to stored bytes.
    pub open spec fn table_contents(self, fd: int) -> Map<u32, Seq<u8>> {
        self.tables@[fd].contents()
    }

    /// The keys of table `fd`, in the kernel's iteration order.
    pub open spec fn table_keys(self, fd: int) -> Seq<u32> {
        self.tables@[fd].keys()
    }

    /// Whether the chained-program field `slot` names a loaded program.
    pub open spec fn prog_registered(self, slot: u32) -> bool {
        3 <= slot && slot - 3 < self.prog_ids@.len()
    }

    /// The global identifier of the program the field `slot` names.
    pub open spec fn prog_id_of(self, slot: u32) -> u32
        recommends
            self.prog_registered(slot),
    {
        self.prog_ids@[slot - 3]
    }

    /// Every table is well-formed.
    pub open spec fn wf(self) -> bool {
        forall|j: int| 0 <= j < self.tables@.len() ==> (#[trigger] self.tables@[j]).wf()
    }

    /// What the kernel stores for written value bytes `v`: for a layout
    /// with a chained-program field, the payload word followed by the
    /// global identifier the handle word resolves to (zero when the
    /// handle word is the "none" sentinel); other layouts are stored
    /// unchanged.  `Err` is the rejection of a handle that names no
    /// loaded program.
    pub open spec fn normalized_value(self, def: TableDef, v: Seq<u8>) -> Result<Seq<u8>, i32>
        recommends
            v.len() == def.value_size,
    {
        if carries_program(def.map_type, def.value_size) {
            let slot = le_u32(v.subrange(4, 8));
            if slot_is_null(slot) {
                Ok(v.subrange(0, 4) + u32_le(0))
            } else if self.prog_registered(slot) {
                Ok(v.subrange(0, 4) + u32_le(self.prog_id_of(slot)))
            } else {
                Err(EBADF)
            }
        } else {
            Ok(v)
        }
    }

    /// What an element write does: either the OS error it is rejected
    /// with, or the bytes the kernel will store under the written key.
    pub open spec fn update_check(self, fd: int, key: Seq<u8>, value: Seq<u8>, flags: u64)
        -> Result<Seq<u8>, i32> {
        if !self.is_table(fd) {
            Err(EBADF)
        } else {
            let def = self.table_def(fd);
            if key.len() != def.key_size {
                Err(EINVAL)
            } else if value.len() != def.value_size {
                Err(EINVAL)
            } else if flags > BPF_EXIST {
                Err(EINVAL)
            } else {
                let k = le_u32(key);
                let present = self.table_contents(fd).contains_key(k);
                if is_dense(def.map_type) && flags == BPF_NOEXIST {
                    Err(EEXIST)
                } else if is_dense(def.map_type) && k >= def.max_entries {
                    Err(E2BIG)
                } else if !is_dense(def.map_type) && flags == BPF_NOEXIST && present {
                    Err(EEXIST)
                } else if !is_dense(def.map_type) && flags == BPF_EXIST && !present {
                    Err(ENOENT)
                } else if !is_dense(def.map_type) && !present && self.table_keys(fd).len()
                    >= def.max_entries {
                    Err(E2BIG)
                } else {
                    self.normalized_value(def, value)
                }
            }
        }
    }

    /// How a successful element write relates the kernel states: table
    /// `fd` gains `stored` under `k` (appending `k` to the iteration
    /// order if it is new), and nothing else changes.
    pub open spec fn updated_at(self, post: Kernel, fd: int, k: u32, stored: Seq<u8>) -> bool {
        &&& post.tables@.len() == self.tables@.len()
        &&& post.prog_ids@ == self.prog_ids@
        &&& forall|j: int|
            0 <= j < self.tables@.len() && j != fd ==> post.tables@[j] == self.tables@[j]
        &&& post.table_def(fd) == self.table_def(fd)
        &&& post.table_contents(fd) == self.table_contents(fd).insert(k, stored)
        &&& post.table_keys(fd) == if self.table_contents(fd).contains_key(k) {
            self.table_keys(fd)
        } else {
            self.table_keys(fd).push(k)
        }
    }

    /// What an element read returns: an OS error, the stored bytes, or
    /// nothing when the key is absent.
    pub open spec fn lookup_check(self, fd: int, key: Seq<u8>, flags: u64) -> Result<
        Option<Seq<u8>>,
        i32,
    > {
        if !self.is_table(fd) {
            Err(EBADF)
        } else if key.len() != self.table_def(fd).key_size {
            Err(EINVAL)
        } else if flags != 0 {
            Err(EINVAL)
        } else {
            let k = le_u32(key);
            if self.table_contents(fd).contains_key(k) {
                Ok(Some(self.table_contents(fd)[k]))
            } else {
                Ok(None)
            }
        }
    }

    /// What an element delete does.  Dense tables reject only an
    /// out-of-range key and succeed whether or not the slot was filled;
    /// hash-indexed tables report an absent key.
    pub open spec fn delete_check(self, fd: int, key: Seq<u8>) -> Result<(), i32> {
        if !self.is_table(fd) {
            Err(EBADF)
        } else {
            let def = self.table_def(fd);
            if key.len() != def.key_size {
                Err(EINVAL)
            } else {
                let k = le_u32(key);
                if is_dense(def.map_type) {
                    if k >= def.max_entries {
                        Err(EINVAL)
                    } else {
                        Ok(())
                    }
                } else {
                    if self.table_contents(fd).contains_key(k) {
                        Ok(())
                    } else {
                        Err(ENOENT)
                    }
                }
            }
        }
    }

    /// How a successful element delete relates the kernel states: `k`
    /// leaves table `fd`'s contents and iteration order, and nothing
    /// else changes.
    pub open spec fn deleted_at(self, post: Kernel, fd: int, k: u32) -> bool {
        &&& post.tables@.len() == self.tables@.len()
        &&& post.prog_ids@ == self.prog_ids@
        &&& forall|j: int|
            0 <= j < self.tables@.len() && j != fd ==> post.tables@[j] == self.tables@[j]
        &&& post.table_def(fd) == self.table_def(fd)
        &&& post.table_contents(fd) == self.table_contents(fd).remove(k)
        &&& post.table_keys(fd) == if self.table_keys(fd).contains(k) {
            self.table_keys(fd).remove(self.table_keys(fd).index_of(k))
        } else {
            self.table_keys(fd)
        }
    }

    /// What the key-iteration primitive answers: the first key when
    /// asked with no key or with a key no longer present, the key after
    /// `key` in the iteration order otherwise, and nothing at the end.
    pub open spec fn next_key_check(self, fd: int, key: Option<Seq<u8>>) -> Result<
        Option<u32>,
        i32,
    > {
        if !self.is_table(fd) {
            Err(EBADF)
        } else {
            let keys = self.table_keys(fd);
            match key {
                Option::None => if keys.len() == 0 {
                    Ok(None)
                } else {
                    Ok(Some(keys[0]))
                },
                Option::Some(kb) => if kb.len() != self.table_def(fd).key_size {
                    Err(EINVAL)
                } else {
                    let k = le_u32(kb);
                    if keys.contains(k) {
                        let i = keys.index_of(k);
                        if i + 1 < keys.len() {
                            Ok(Some(keys[i + 1]))
                        } else {
                            Ok(None)
                        }
                    } else if keys.len() == 0 {
                        Ok(None)
                    } else {
                        Ok(Some(keys[0]))
                    }
                },
            }
        }
    }

    /// What a loaded program's handle reports as its global identifier.
    pub open spec fn spec_program_id(self, fd: i32) -> Option<u32> {
        if fd >= 3 && self.prog_registered(fd as u32) {
            Some(self.prog_id_of(fd as u32))
        } else {
            None
        }
    }

    /// What the redirect helper returns when the restricted program
    /// consults slot `index` of table `fd`: flags above the largest
    /// plain action are rejected outright; a filled slot redirects; an
    /// empty slot or dead table falls back to the action encoded in the
    /// flags.
    pub open spec fn spec_redirect(self, fd: int, index: u32, flags: u64) -> u32 {
        if flags > XDP_TX as u64 {
            XDP_ABORTED
        } else if self.is_table(fd) && self.table_contents(fd).contains_key(index) {
            XDP_REDIRECT
        } else {
            flags as u32
        }
    }

    /// How a successful table creation relates the kernel states: a
    /// fresh, empty table with layout `def` appears under handle `fd`,
    /// and nothing else changes.
    pub open spec fn created_at(self, post: Kernel, fd: int, def: TableDef) -> bool {
        &&& fd == self.tables@.len()
        &&& post.tables@.len() == self.tables@.len() + 1
        &&& forall|j: int| 0 <= j < self.tables@.len() ==> post.tables@[j] == self.tables@[j]
        &&& post.table_def(fd) == def
        &&& post.table_keys(fd) == Seq::<u32>::empty()
        &&& post.table_contents(fd) == Map::<u32, Seq<u8>>::empty()
        &&& post.prog_ids@ == self.prog_ids@
    }

    /// Whether a table layout would be accepted at creation time.
    pub open spec fn create_check(def: TableDef) -> Result<(), i32> {
        if !is_redirect_map_type(def.map_type) {
            Err(EINVAL)
        } else if def.key_size != REDIRECT_KEY_SIZE {
            Err(EINVAL)
        } else if !valid_value_size(def.map_type, def.value_size) {
            Err(EINVAL)
        } else if def.max_entries == 0 {
            Err(EINVAL)
        } else {
            Ok(())
        }
    }
}

/// In a well-formed kernel, every stored value has its table's declared
/// size.
pub proof fn lemma_table_value_size(k: Kernel, fd: int, key: u32)
    requires
        k.wf(),
        k.is_table(fd),
        k.table_contents(fd).contains_key(key),
    ensures
        k.table_contents(fd)[key].len() == k.table_def(fd).value_size,
{
    let s = k.tables@[fd].entries@;
    lemma_assoc_contains(s, key);
    let i = choose|i: int| 0 <= i < s.len() && (#[trigger] s[i]).0 == key;
    assert(k.tables@[fd].wf());
    lemma_assoc_value(s, i);
}

/// In a well-formed kernel, a table's iteration order repeats no key.
pub proof fn lemma_table_keys_unique(k: Kernel, fd: int)
    requires
        k.wf(),
        k.is_table(fd),
    ensures
        forall|a: int, b: int|
            0 <= a < b < k.table_keys(fd).len() ==> k.table_keys(fd)[a] != k.table_keys(fd)[b],
{
    let s = k.tables@[fd].entries@;
    assert(k.tables@[fd].wf());
    assert forall|a: int, b: int|
        0 <= a < b < k.table_keys(fd).len() implies k.table_keys(fd)[a] != k.table_keys(
        fd,
    )[b] by {
        assert((s[a]).0 != (s[b]).0);
    }
}

/// The identifier the kernel records in the chained-program field when
/// an optional handle is written: zero for "none", otherwise the global
/// identifier of the named program.
pub open spec fn written_program_id(k: Kernel, program: Option<ProgramFd>) -> u32 {
    let slot = spec_program_field(program);
    if slot_is_null(slot) {
        0
    } else {
        k.prog_id_of(slot)
    }
}

/// Finds the position of `key` in an entry list.
fn find_index(entries: &Vec<(u32, Vec<u8>)>, key: u32) -> (r: Option<usize>)
    ensures
        match r {
            Option::Some(i) => i < entries@.len() && entries@[i as int].0 == key,
            Option::None => forall|i: int|
                0 <= i < entries@.len() ==> (#[trigger] entries@[i]).0 != key,
        },
{
    let mut i: usize = 0;
    while i < entries.len()
        invariant
            i <= entries@.len(),
            forall|j: int| 0 <= j < i ==> (#[trigger] entries@[j]).0 != key,
        decreases entries@.len() - i,
    {
        if entries[i].0 == key {
            return Some(i);
        }
        i = i + 1;
    }
    None
}

/// Copies value bytes out of the kernel's storage.
fn copy_bytes(v: &Vec<u8>) -> (r: Vec<u8>)
    ensures
        r@ == v@,
{
    let mut r: Vec<u8> = Vec::new();
    let mut i: usize = 0;
    while i < v.len()
        invariant
            i <= v@.len(),
            r@ == v@.subrange(0, i as int),
        decreases v@.len() - i,
    {
        r.push(v[i]);
        proof {
            assert(v@.subrange(0, i as int).push(v@[i as int]) =~= v@.subrange(0, (i + 1) as int));
        }
        i = i + 1;
    }
    proof {
        assert(v@.subrange(0, v@.len() as int) =~= v@);
    }
    r
}

impl Kernel {
    /// A kernel with no tables and no loaded programs.
    pub fn new() -> (r: Kernel)
        ensures
            r.wf(),
            r.tables@.len() == 0,
            r.prog_ids@.len() == 0,
    {
        Kernel { tables: Vec::new(), prog_ids: Vec::new() }
    }

    /// Creates a table with the layout `def` and returns its handle.
    pub fn create_table(&mut self, def: TableDef) -> (r: Result<usize, i32>)
        requires
            old(self).wf(),
        ensures
            final(self).wf(),
            ({
                match Kernel::create_check(def) {
                    Result::Err(e) => r == Err::<usize, i32>(e) && *final(self) == *old(self),
                    Result::Ok(()) => r matches Ok(fd) && old(self).created_at(
                        *final(self),
                        fd as int,
                        def,
                    ),
                }
            }),
    {
        let tag_ok = def.map_type == BPF_MAP_TYPE_CPUMAP || def.map_type == BPF_MAP_TYPE_DEVMAP
            || def.map_type == BPF_MAP_TYPE_DEVMAP_HASH || def.map_type == BPF_MAP_TYPE_XSKMAP;
        if !tag_ok {
            return Err(EINVAL);
        }
        if def.key_size != REDIRECT_KEY_SIZE {
            return Err(EINVAL);
        }
        let vs_ok = if def.map_type == BPF_MAP_TYPE_XSKMAP {
            def.value_size == PLAIN_VALUE_SIZE
        } else {
            def.value_size == PLAIN_VALUE_SIZE || def.value_size == CHAINED_VALUE_SIZE
        };
        if !vs_ok {
            return Err(EINVAL);
        }
        if def.max_entries == 0 {
            return Err(EINVAL);
        }
        let fd = self.tables.len();
        self.tables.push(KernelTable { def, entries: Vec::new() });
        proof {
            let t = self.tables@[fd as int];
            assert(t.keys() =~= Seq::<u32>::empty());
            assert(t.contents() =~= Map::<u32, Seq<u8>>::empty());
            assert(t.wf());
        }
        Ok(fd)
    }

    /// Loads a chained program, returning the process-local handle the
    /// kernel hands out for it.  The matching global identifier is what
    /// [`Kernel::program_id`] reports for the handle.
    pub fn load_program(&mut self) -> (r: ProgramFd)
        requires
            old(self).wf(),
            old(self).prog_ids@.len() < 0x7fff_fffc,
        ensures
            final(self).wf(),
            r.fd == old(self).prog_ids@.len() + 3,
            final(self).prog_ids@ == old(self).prog_ids@.push(
                (old(self).prog_ids@.len() + 1) as u32,
            ),
            final(self).tables@ == old(self).tables@,
            final(self).spec_program_id(r.fd) == Some((old(self).prog_ids@.len() + 1) as u32),
    {
        let id = (self.prog_ids.len() + 1) as u32;
        let fd = (self.prog_ids.len() + 3) as i32;
        self.prog_ids.push(id);
        ProgramFd { fd }
    }

    /// Reports the global identifier of the program a handle names, or
    /// nothing if the handle names no loaded program.
    pub fn program_id(&self, prog: &ProgramFd) -> (r: Option<u32>)
        ensures
            r == self.spec_program_id(prog.fd),
    {
        if prog.fd >= 3 {
            let off = (prog.fd - 3) as usize;
            if off < self.prog_ids.len() {
                Some(self.prog_ids[off])
            } else {
                None
            }
        } else {
            None
        }
    }

    /// The element-read primitive: returns a copy of the bytes stored
    /// under the key, or nothing when the key is absent.
    pub fn lookup_elem(&self, fd: usize, key: &Vec<u8>, flags: u64) -> (r: Result<
        Option<Vec<u8>>,
        i32,
    >)
        requires
            self.wf(),
        ensures
            ({
                match self.lookup_check(fd as int, key@, flags) {
                    Result::Err(e) => r matches Err(e2) && e2 == e,
                    Result::Ok(Option::None) => r matches Ok(o) && o is None,
                    Result::Ok(Option::Some(bytes)) => r matches Ok(o) && o matches Some(v) && v@
                        == bytes,
                }
            }),
    {
        if fd >= self.tables.len() {
            return Err(EBADF);
        }
        if key.len() != self.tables[fd].def.key_size as usize {
            return Err(EINVAL);
        }
        if flags != 0 {
            return Err(EINVAL);
        }
        let k = le_to_u32_at(key, 0);
        proof {
            assert(key@.subrange(0, 4) =~= key@);
            lemma_assoc_contains(self.tables@[fd as int].entries@, k);
        }
        match find_index(&self.tables[fd].entries, k) {
            Option::Some(i) => {
                proof {
                    lemma_assoc_value(self.tables@[fd as int].entries@, i as int);
                }
                Ok(Some(copy_bytes(&self.tables[fd].entries[i].1)))
            },
            Option::None => Ok(None),
        }
    }

    /// The element-write primitive, including the kernel's
    /// normalization of a chained-program field.
    pub fn update_elem(&mut self, fd: usize, key: &Vec<u8>, value: &Vec<u8>, flags: u64) -> (r:
        Result<(), i32>)
        requires
            old(self).wf(),
        ensures
            final(self).wf(),
            ({
                match old(self).update_check(fd as int, key@, value@, flags) {
                    Result::Err(e) => r == Err::<(), i32>(e) && *final(self) == *old(self),
                    Result::Ok(stored) => r == Ok::<(), i32>(()) && old(self).updated_at(
                        *final(self),
                        fd as int,
                        le_u32(key@),
                        stored,
                    ),
                }
            }),
    {
        if fd >= self.tables.len() {
            return Err(EBADF);
        }
        let def = self.tables[fd].def;
        if key.len() != def.key_size as usize {
            return Err(EINVAL);
        }
        if value.len() != def.value_size as usize {
            return Err(EINVAL);
        }
        if flags > BPF_EXIST {
            return Err(EINVAL);
        }
        let k = le_to_u32_at(key, 0);
        proof {
            assert(key@.subrange(0, 4) =~= key@);
            lemma_assoc_contains(self.tables@[fd as int].entries@, k);
        }
        let dense = def.map_type == BPF_MAP_TYPE_CPUMAP || def.map_type == BPF_MAP_TYPE_DEVMAP
            || def.map_type == BPF_MAP_TYPE_XSKMAP;
        let pos = find_index(&self.tables[fd].entries, k);
        let present = pos.is_some();
        if dense && flags == BPF_NOEXIST {
            return Err(EEXIST);
        }
        if dense && k >= def.max_entries {
            return Err(E2BIG);
        }
        if !dense {
            if flags == BPF_NOEXIST && present {
                return Err(EEXIST);
            }
            if flags == BPF_EXIST && !present {
                return Err(ENOENT);
            }
            if !present && self.tables[fd].entries.len() >= def.max_entries as usize {
                return Err(E2BIG);
            }
        }
        let chained = (def.map_type == BPF_MAP_TYPE_CPUMAP || def.map_type == BPF_MAP_TYPE_DEVMAP
            || def.map_type == BPF_MAP_TYPE_DEVMAP_HASH) && def.value_size == CHAINED_VALUE_SIZE;
        let stored: Vec<u8>;
        if chained {
            let slot = le_to_u32_at(value, 4);
            let id: u32;
            if slot == 0 || slot >= 0x8000_0000 {
                id = 0;
            } else if slot >= 3 && ((slot - 3) as usize) < self.prog_ids.len() {
                id = self.prog_ids[(slot - 3) as usize];
            } else {
                return Err(EBADF);
            }
            let mut s2: Vec<u8> = Vec::new();
            s2.push(value[0]);
            s2.push(value[1]);
            s2.push(value[2]);
            s2.push(value[3]);
            let mut idb = u32_to_le(id);
            s2.append(&mut idb);
            proof {
                assert(s2@ =~= value@.subrange(0, 4) + u32_le(id));
            }
            stored = s2;
        } else {
            stored = copy_bytes(value);
        }
        self.store_entry(fd, pos, k, stored);
        Ok(())
    }

    /// Stores value bytes under a key whose position (if any) has been
    /// found, keeping the table well-formed.
    fn store_entry(&mut self, fd: usize, pos: Option<usize>, k: u32, stored: Vec<u8>)
        requires
            old(self).wf(),
            old(self).is_table(fd as int),
            stored@.len() == old(self).table_def(fd as int).value_size,
            is_dense(old(self).table_def(fd as int).map_type) ==> k < old(self).table_def(
                fd as int,
            ).max_entries,
            match pos {
                Option::Some(i) => i < old(self).tables@[fd as int].entries@.len() && old(
                    self,
                ).tables@[fd as int].entries@[i as int].0 == k,
                Option::None => {
                    &&& forall|i: int|
                        0 <= i < old(self).tables@[fd as int].entries@.len() ==> (#[trigger] old(
                            self,
                        ).tables@[fd as int].entries@[i]).0 != k
                    &&& !is_dense(old(self).table_def(fd as int).map_type) ==> old(
                        self,
                    ).tables@[fd as int].entries@.len() < old(self).table_def(
                        fd as int,
                    ).max_entries
                },
            },
        ensures
            final(self).wf(),
            old(self).updated_at(*final(self), fd as int, k, stored@),
    {
        let ghost pre = *self;
        let ghost gstored = stored;
        let tab = &mut self.tables[fd];
        match pos {
            Option::Some(i) => {
                tab.entries[i] = (k, stored);
            },
            Option::None => {
                tab.entries.push((k, stored));
            },
        }
        proof {
            let s = pre.tables@[fd as int].entries@;
            let t2 = self.tables@[fd as int];
            lemma_assoc_contains(s, k);
            match pos {
                Option::Some(i) => {
                    assert(t2.entries@ == s.update(i as int, (k, gstored)));
                    assert((s[i as int].0, gstored) == (k, gstored));
                    lemma_assoc_update(s, i as int, gstored);
                    assert(t2.keys() =~= pre.tables@[fd as int].keys());
                    assert(pre.table_contents(fd as int).contains_key(k));
                },
                Option::None => {
                    assert(t2.entries@ == s.push((k, gstored)));
                    lemma_assoc_push(s, (k, gstored));
                    assert(t2.keys() =~= pre.tables@[fd as int].keys().push(k));
                    assert(!pre.table_contents(fd as int).contains_key(k));
                },
            }
            assert forall|a: int, b: int| 0 <= a < b < t2.entries@.len() implies (
            #[trigger] t2.entries@[a]).0 != (#[trigger] t2.entries@[b]).0 by {
                assert(pre.tables@[fd as int].wf());
            }
            assert(t2.wf());
            assert(forall|j: int|
                0 <= j < self.tables@.len() && j != fd ==> self.tables@[j] == pre.tables@[j]);
            assert(self.wf());
        }
    }

    /// The element-delete primitive.
    pub fn delete_elem(&mut self, fd: usize, key: &Vec<u8>) -> (r: Result<(), i32>)
        requires
            old(self).wf(),
        ensures
            final(self).wf(),
            ({
                match old(self).delete_check(fd as int, key@) {
                    Result::Err(e) => r == Err::<(), i32>(e) && *final(self) == *old(self),
                    Result::Ok(()) => r == Ok::<(), i32>(()) && old(self).deleted_at(
                        *final(self),
                        fd as int,
                        le_u32(key@),
                    ),
                }
            }),
    {
        if fd >= self.tables.len() {
            return Err(EBADF);
        }
        let def = self.tables[fd].def;
        if key.len() != def.key_size as usize {
            return Err(EINVAL);
        }
        let k = le_to_u32_at(key, 0);
        proof {
            assert(key@.subrange(0, 4) =~= key@);
            lemma_assoc_contains(self.tables@[fd as int].entries@, k);
        }
        let dense = def.map_type == BPF_MAP_TYPE_CPUMAP || def.map_type == BPF_MAP_TYPE_DEVMAP
            || def.map_type == BPF_MAP_TYPE_XSKMAP;
        if dense && k >= def.max_entries {
            return Err(EINVAL);
        }
        let pos = find_index(&self.tables[fd].entries, k);
        if !dense && pos.is_none() {
            return Err(ENOENT);
        }
        let ghost pre = *self;
        match pos {
            Option::Some(i) => {
                let tab = &mut self.tables[fd];
                tab.entries.remove(i);
                proof {
                    let s = pre.tables@[fd as int].entries@;
                    let t2 = self.tables@[fd as int];
                    assert(t2.entries@ == s.remove(i as int));
                    lemma_assoc_remove(s, i as int);
                    let keys = pre.table_keys(fd as int);
                    assert(keys[i as int] == k);
                    assert(keys.contains(k));
                    let j = keys.index_of(k);
                    assert(0 <= j < keys.len() && keys[j] == k);
                    assert(j == i as int) by {
                        assert(pre.tables@[fd as int].wf());
                        assert(s[j].0 == k && s[i as int].0 == k);
                    }
                    assert(t2.keys() =~= keys.remove(i as int));
                    assert forall|a: int, b: int| 0 <= a < b < t2.entries@.len() implies (
                    #[trigger] t2.entries@[a]).0 != (#[trigger] t2.entries@[b]).0 by {
                        assert(pre.tables@[fd as int].wf());
                        if b < i as int {
                        } else if a < i as int {
                            assert(t2.entries@[b] == s[b + 1]);
                        } else {
                            assert(t2.entries@[a] == s[a + 1]);
                            assert(t2.entries@[b] == s[b + 1]);
                        }
                    }
                    assert forall|a: int| 0 <= a < t2.entries@.len() implies (
                    #[trigger] t2.entries@[a]).1@.len() == t2.def.value_size && (is_dense(
                        t2.def.map_type,
                    ) ==> t2.entries@[a].0 < t2.def.max_entries) by {
                        assert(pre.tables@[fd as int].wf());
                        if a >= i as int {
                            assert(t2.entries@[a] == s[a + 1]);
                        }
                    }
                    assert(t2.wf());
                    assert(self.wf());
                }
            },
            Option::None => {
                proof {
                    let keys = pre.table_keys(fd as int);
                    assert(!pre.table_contents(fd as int).contains_key(k));
                    assert(!keys.contains(k)) by {
                        if keys.contains(k) {
                            let j = choose|j: int| 0 <= j < keys.len() && keys[j] == k;
                            assert(pre.tables@[fd as int].entries@[j].0 == k);
                        }
                    }
                    assert(pre.table_contents(fd as int).remove(k) =~= pre.table_contents(
                        fd as int,
                    ));
                }
            },
        }
        Ok(())
    }

    /// The key-iteration primitive, `get next key`: answers the first
    /// key when given none, and the key after the given one otherwise.
    pub fn get_next_key(&self, fd: usize, key: Option<&Vec<u8>>) -> (r: Result<
        Option<Vec<u8>>,
        i32,
    >)
        requires
            self.wf(),
        ensures
            ({
                let spec_key = match key {
                    Option::Some(b) => Some(b@),
                    Option::None => None,
                };
                match self.next_key_check(fd as int, spec_key) {
                    Result::Err(e) => r matches Err(e2) && e2 == e,
                    Result::Ok(Option::None) => r matches Ok(o) && o is None,
                    Result::Ok(Option::Some(nk)) => r matches Ok(o) && o matches Some(b) && b@
                        == u32_le(nk),
                }
            }),
    {
        if fd >= self.tables.len() {
            return Err(EBADF);
        }
        match key {
            Option::None => {
                if self.tables[fd].entries.len() == 0 {
                    Ok(None)
                } else {
                    Ok(Some(u32_to_le(self.tables[fd].entries[0].0)))
                }
            },
            Option::Some(kb) => {
                if kb.len() != self.tables[fd].def.key_size as usize {
                    return Err(EINVAL);
                }
                let k = le_to_u32_at(kb, 0);
                proof {
                    assert(kb@.subrange(0, 4) =~= kb@);
                }
                let keys_len = self.tables[fd].entries.len();
                match find_index(&self.tables[fd].entries, k) {
                    Option::Some(i) => {
                        proof {
                            let keys = self.table_keys(fd as int);
                            assert(keys[i as int] == k);
                            assert(keys.contains(k));
                            let j = keys.index_of(k);
                            assert(0 <= j < keys.len() && keys[j] == k);
                            assert(j == i as int) by {
                                assert(self.tables@[fd as int].wf());
                                let s = self.tables@[fd as int].entries@;
                                assert(s[j].0 == k && s[i as int].0 == k);
                            }
                        }
                        if i + 1 < keys_len {
                            Ok(Some(u32_to_le(self.tables[fd].entries[i + 1].0)))
                        } else {
                            Ok(None)
                        }
                    },
                    Option::None => {
                        proof {
                            let keys = self.table_keys(fd as int);
                            assert(!keys.contains(k)) by {
                                if keys.contains(k) {
                                    let j = choose|j: int| 0 <= j < keys.len() && keys[j] == k;
                                    assert(self.tables@[fd as int].entries@[j].0 == k);
                                }
                            }
                        }
                        if keys_len == 0 {
                            Ok(None)
                        } else {
                            Ok(Some(u32_to_le(self.tables[fd].entries[0].0)))
                        }
                    },
                }
            },
        }
    }

    /// The redirect helper the restricted program calls: redirect the
    /// packet being processed to the entry at `index` of table `fd`, or
    /// fall back to the action encoded in `flags`.
    pub fn redirect_map(&self, fd: usize, index: u32, flags: u64) -> (r: u32)
        ensures
            r == self.spec_redirect(fd as int, index, flags),
    {
        if flags > XDP_TX as u64 {
            return XDP_ABORTED;
        }
        if fd < self.tables.len() {
            proof {
                lemma_assoc_contains(self.tables@[fd as int].entries@, index);
            }
            if find_index(&self.tables[fd].entries, index).is_some() {
                return XDP_REDIRECT;
            }
        }
        flags as u32
    }
}

} // verus!
