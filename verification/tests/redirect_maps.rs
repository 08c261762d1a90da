//! Control-plane scenarios: handle validation, round trips through the
//! modeled kernel, iteration, and the error taxonomy.

use redirect_maps::cpu_map::{CpuMap, CpuMapValue};
use redirect_maps::defs::{
    TableDef, BPF_MAP_TYPE_CPUMAP, BPF_MAP_TYPE_DEVMAP_HASH, E2BIG, EBADF, EEXIST, EINVAL, ENOENT,
    PIN_NONE,
};
use redirect_maps::dev_map_hash::{DevMapHash, DevMapValue};
use redirect_maps::errors::{check_kv_size, MapError, Syscall};
use redirect_maps::kernel::{Kernel, ProgramFd};

fn cpu_def(max_entries: u32) -> TableDef {
    TableDef {
        map_type: BPF_MAP_TYPE_CPUMAP,
        key_size: 4,
        value_size: 8,
        max_entries,
        map_flags: 0,
        id: 0,
        pinning: PIN_NONE,
    }
}

fn dev_hash_def(max_entries: u32) -> TableDef {
    TableDef {
        map_type: BPF_MAP_TYPE_DEVMAP_HASH,
        key_size: 4,
        value_size: 8,
        max_entries,
        map_flags: 0,
        id: 0,
        pinning: PIN_NONE,
    }
}

fn cpu_table(k: &mut Kernel, max_entries: u32) -> CpuMap {
    let fd = k.create_table(cpu_def(max_entries)).unwrap();
    CpuMap::new(k, fd).unwrap()
}

fn dev_hash_table(k: &mut Kernel, max_entries: u32) -> DevMapHash {
    let fd = k.create_table(dev_hash_def(max_entries)).unwrap();
    DevMapHash::new(k, fd).unwrap()
}

#[test]
fn out_of_bounds_get_and_set_without_syscall() {
    let mut k = Kernel::new();
    let mut m = cpu_table(&mut k, 4);
    assert_eq!(
        m.get(&k, 4, 0),
        Err(MapError::OutOfBounds { index: 4, max_entries: 4 })
    );
    assert_eq!(
        m.get(&k, u32::MAX, 0),
        Err(MapError::OutOfBounds { index: u32::MAX, max_entries: 4 })
    );
    assert_eq!(
        m.set(&mut k, 7, 100, None, 0),
        Err(MapError::OutOfBounds { index: 7, max_entries: 4 })
    );
    // The rejected index never reached the modeled kernel: every slot
    // is still empty.
    for i in 0..4 {
        assert_eq!(m.get(&k, i, 0), Err(MapError::KeyNotFound));
    }
}

#[test]
fn set_then_get_round_trip_no_program() {
    let mut k = Kernel::new();
    let mut m = cpu_table(&mut k, 8);
    assert_eq!(m.set(&mut k, 3, 1234, None, 0), Ok(()));
    assert_eq!(
        m.get(&k, 3, 0),
        Ok(CpuMapValue { qsize: 1234, prog_id: 0 })
    );
}

#[test]
fn set_then_get_chained_program_reports_kernel_identifier() {
    let mut k = Kernel::new();
    let mut m = cpu_table(&mut k, 4);
    let prog = k.load_program();
    assert_eq!(m.set(&mut k, 0, 512, Some(prog), 0), Ok(()));
    let value = m.get(&k, 0, 0).unwrap();
    assert_eq!(value.qsize, 512);
    // The read-back is the identifier the kernel reports for the
    // handle; the handle and the identifier are different
    // representations and are never compared byte-for-byte.
    assert_eq!(Some(value.prog_id), k.program_id(&prog));
    assert_ne!(value.prog_id, 0);
}

#[test]
fn negative_program_handle_means_none() {
    let mut k = Kernel::new();
    let mut m = cpu_table(&mut k, 4);
    assert_eq!(m.set(&mut k, 1, 64, Some(ProgramFd { fd: -1 }), 0), Ok(()));
    assert_eq!(m.get(&k, 1, 0), Ok(CpuMapValue { qsize: 64, prog_id: 0 }));
}

#[test]
fn unknown_program_handle_is_rejected() {
    let mut k = Kernel::new();
    let mut m = cpu_table(&mut k, 4);
    assert_eq!(
        m.set(&mut k, 0, 64, Some(ProgramFd { fd: 99 }), 0),
        Err(MapError::SyscallError { call: Syscall::MapUpdateElem, io_error: EBADF })
    );
    assert_eq!(m.get(&k, 0, 0), Err(MapError::KeyNotFound));
}

#[test]
fn construction_rejects_value_size_mismatch() {
    let mut k = Kernel::new();
    // A CPU table may legitimately be declared with a bare one-word
    // value; a handle that expects the two-word layout must refuse it.
    let mut def = cpu_def(4);
    def.value_size = 4;
    let fd = k.create_table(def).unwrap();
    assert_eq!(
        CpuMap::new(&k, fd),
        Err(MapError::InvalidValueSize { size: 8, expected: 4 })
    );
}

#[test]
fn construction_rejects_key_size_one_byte_wider() {
    // A handle whose key type is one byte wider than the declared
    // four-byte key fails the shared construction-time check.
    let def = dev_hash_def(4);
    assert_eq!(
        check_kv_size(&def, 5, 8),
        Err(MapError::InvalidKeySize { size: 5, expected: 4 })
    );
}

#[test]
fn construction_rejects_dead_handle_and_wrong_kind() {
    let mut k = Kernel::new();
    assert_eq!(CpuMap::new(&k, 0), Err(MapError::NotCreated));
    let fd = k.create_table(dev_hash_def(4)).unwrap();
    assert_eq!(
        CpuMap::new(&k, fd),
        Err(MapError::InvalidMapType { map_type: BPF_MAP_TYPE_DEVMAP_HASH })
    );
    assert_eq!(
        DevMapHash::new(&k, 99),
        Err(MapError::NotCreated)
    );
}

#[test]
fn dense_iteration_yields_capacity_results_in_order() {
    let mut k = Kernel::new();
    let mut m = cpu_table(&mut k, 8);
    assert_eq!(m.len(), 8);
    m.set(&mut k, 2, 256, None, 0).unwrap();
    m.set(&mut k, 5, 512, None, 0).unwrap();
    let all = m.iter(&k);
    assert_eq!(all.len(), 8);
    for (i, element) in all.iter().enumerate() {
        match i {
            2 => assert_eq!(*element, Ok(CpuMapValue { qsize: 256, prog_id: 0 })),
            5 => assert_eq!(*element, Ok(CpuMapValue { qsize: 512, prog_id: 0 })),
            _ => assert_eq!(*element, Err(MapError::KeyNotFound)),
        }
    }
}

#[test]
fn cpu_table_scenario() {
    let mut k = Kernel::new();
    let mut cpus = cpu_table(&mut k, 8);
    assert_eq!(cpus.set(&mut k, 0, 2048, None, 0), Ok(()));
    assert_eq!(
        cpus.get(&k, 0, 0),
        Ok(CpuMapValue { qsize: 2048, prog_id: 0 })
    );
    assert_eq!(cpus.get(&k, 1, 0), Err(MapError::KeyNotFound));
}

#[test]
fn dev_hash_scenario() {
    let mut k = Kernel::new();
    let mut devs = dev_hash_table(&mut k, 64);
    assert_eq!(devs.insert(&mut k, 32, 32, None, 0), Ok(()));
    assert_eq!(
        devs.get(&k, 32, 0),
        Ok(DevMapValue { ifindex: 32, prog_id: 0 })
    );
    assert_eq!(devs.remove(&mut k, 32), Ok(()));
    assert_eq!(devs.get(&k, 32, 0), Err(MapError::KeyNotFound));
}

#[test]
fn dev_hash_chained_program_round_trip() {
    let mut k = Kernel::new();
    let mut devs = dev_hash_table(&mut k, 8);
    let prog = k.load_program();
    assert_eq!(devs.insert(&mut k, 7, 3, Some(prog), 0), Ok(()));
    let value = devs.get(&k, 7, 0).unwrap();
    assert_eq!(value.ifindex, 3);
    assert_eq!(Some(value.prog_id), k.program_id(&prog));
}

#[test]
fn lookup_flags_are_rejected() {
    let mut k = Kernel::new();
    let mut m = cpu_table(&mut k, 4);
    m.set(&mut k, 0, 1, None, 0).unwrap();
    assert_eq!(
        m.get(&k, 0, 1),
        Err(MapError::SyscallError { call: Syscall::MapLookupElem, io_error: EINVAL })
    );
}

#[test]
fn update_flag_semantics() {
    let mut k = Kernel::new();
    let mut cpus = cpu_table(&mut k, 4);
    // Flag values above "overwrite an existing entry only" are invalid.
    assert_eq!(
        cpus.set(&mut k, 0, 1, None, 7),
        Err(MapError::SyscallError { call: Syscall::MapUpdateElem, io_error: EINVAL })
    );
    // A dense table's slots all "exist": create-only writes are
    // rejected.
    assert_eq!(
        cpus.set(&mut k, 0, 1, None, 1),
        Err(MapError::SyscallError { call: Syscall::MapUpdateElem, io_error: EEXIST })
    );
    let mut devs = dev_hash_table(&mut k, 4);
    devs.insert(&mut k, 10, 1, None, 0).unwrap();
    // Create-only on an existing key.
    assert_eq!(
        devs.insert(&mut k, 10, 2, None, 1),
        Err(MapError::SyscallError { call: Syscall::MapUpdateElem, io_error: EEXIST })
    );
    // Overwrite-only on an absent key.
    assert_eq!(
        devs.insert(&mut k, 11, 2, None, 2),
        Err(MapError::SyscallError { call: Syscall::MapUpdateElem, io_error: ENOENT })
    );
    // Create-only on a fresh key succeeds.
    assert_eq!(devs.insert(&mut k, 11, 2, None, 1), Ok(()));
}

#[test]
fn hash_table_capacity_is_enforced() {
    let mut k = Kernel::new();
    let mut devs = dev_hash_table(&mut k, 2);
    devs.insert(&mut k, 1, 10, None, 0).unwrap();
    devs.insert(&mut k, 2, 20, None, 0).unwrap();
    // Overwriting within capacity is fine.
    assert_eq!(devs.insert(&mut k, 2, 21, None, 0), Ok(()));
    // A third distinct key exceeds the declared capacity.
    assert_eq!(
        devs.insert(&mut k, 3, 30, None, 0),
        Err(MapError::SyscallError { call: Syscall::MapUpdateElem, io_error: E2BIG })
    );
}

#[test]
fn removing_absent_key_propagates_kernel_classification() {
    let mut k = Kernel::new();
    let mut devs = dev_hash_table(&mut k, 4);
    assert_eq!(
        devs.remove(&mut k, 5),
        Err(MapError::SyscallError { call: Syscall::MapDeleteElem, io_error: ENOENT })
    );
}

#[test]
fn hash_keys_and_iteration() {
    let mut k = Kernel::new();
    let mut devs = dev_hash_table(&mut k, 8);
    devs.insert(&mut k, 30, 3, None, 0).unwrap();
    devs.insert(&mut k, 10, 1, None, 0).unwrap();
    devs.insert(&mut k, 20, 2, None, 0).unwrap();
    assert_eq!(devs.keys(&k), vec![30, 10, 20]);
    let entries = devs.iter(&k);
    assert_eq!(
        entries,
        vec![
            Ok((30, DevMapValue { ifindex: 3, prog_id: 0 })),
            Ok((10, DevMapValue { ifindex: 1, prog_id: 0 })),
            Ok((20, DevMapValue { ifindex: 2, prog_id: 0 })),
        ]
    );
    devs.remove(&mut k, 10).unwrap();
    assert_eq!(devs.keys(&k), vec![30, 20]);
}

#[test]
fn empty_hash_table_iterates_nothing() {
    let mut k = Kernel::new();
    let devs = dev_hash_table(&mut k, 8);
    assert_eq!(devs.keys(&k), Vec::<u32>::new());
    assert_eq!(devs.iter(&k).len(), 0);
}
