//! Restricted-side descriptors, the redirect primitive, the example
//! redirect programs, the entry codec, and the modeled system-call
//! primitives.

use redirect_maps::codec::{two_u32_to_le, u32_to_le};
use redirect_maps::defs::{
    TableDef, BPF_MAP_TYPE_CPUMAP, BPF_MAP_TYPE_DEVMAP, BPF_MAP_TYPE_DEVMAP_HASH,
    BPF_MAP_TYPE_XSKMAP, EINVAL, PIN_BY_NAME, PIN_NONE, XDP_ABORTED, XDP_PASS, XDP_REDIRECT,
};
use redirect_maps::dev_map_hash::DevMapHash;
use redirect_maps::kernel::Kernel;
use redirect_maps::redirect::{
    inc_hit, redirect_cpu, redirect_cpu_chain, redirect_dev, redirect_dev_chain,
    redirect_dev_hash, redirect_sock, HitCounters,
};
use redirect_maps::xdp_cpu_map::CpuMap;
use redirect_maps::xdp_dev_map::DevMap;
use redirect_maps::xdp_xsk_map::XskMap;

#[test]
fn descriptors_declare_the_fixed_layout() {
    let mut k = Kernel::new();
    let cpus = CpuMap::with_max_entries(&mut k, 16, 7);
    assert_eq!(cpus.def.map_type, BPF_MAP_TYPE_CPUMAP);
    assert_eq!(cpus.def.key_size, 4);
    assert_eq!(cpus.def.value_size, 8);
    assert_eq!(cpus.def.max_entries, 16);
    assert_eq!(cpus.def.map_flags, 7);
    assert_eq!(cpus.def.pinning, PIN_NONE);
    let devs = DevMap::pinned(&mut k, 2, 0);
    assert_eq!(devs.def.map_type, BPF_MAP_TYPE_DEVMAP);
    assert_eq!(devs.def.key_size, 4);
    assert_eq!(devs.def.value_size, 4);
    assert_eq!(devs.def.pinning, PIN_BY_NAME);
    let socks = XskMap::with_max_entries(&mut k, 1, 0);
    assert_eq!(socks.def.map_type, BPF_MAP_TYPE_XSKMAP);
    assert_eq!(socks.def.value_size, 4);
    assert_eq!(socks.def.pinning, PIN_NONE);
    let pinned_socks = XskMap::pinned(&mut k, 1, 0);
    assert_eq!(pinned_socks.def.pinning, PIN_BY_NAME);
    let pinned_cpus = CpuMap::pinned(&mut k, 1, 0);
    assert_eq!(pinned_cpus.def.pinning, PIN_BY_NAME);
    let plain_devs = DevMap::with_max_entries(&mut k, 2, 0);
    assert_eq!(plain_devs.def.pinning, PIN_NONE);
}

#[test]
fn redirect_falls_back_when_slot_is_empty() {
    let mut k = Kernel::new();
    let socks = XskMap::with_max_entries(&mut k, 1, 0);
    // The fallback action is encoded in the flags argument.
    assert_eq!(socks.redirect(&k, 0, XDP_ABORTED as u64), XDP_ABORTED);
    assert_eq!(socks.redirect(&k, 0, XDP_PASS as u64), XDP_PASS);
    // Flags beyond the plain actions are rejected outright.
    assert_eq!(socks.redirect(&k, 0, 9), XDP_ABORTED);
}

#[test]
fn redirect_hits_a_filled_slot() {
    let mut k = Kernel::new();
    let socks = XskMap::with_max_entries(&mut k, 2, 0);
    let key = u32_to_le(0);
    let sock = u32_to_le(11);
    assert_eq!(k.update_elem(socks.fd, &key, &sock, 0), Ok(()));
    assert_eq!(socks.redirect(&k, 0, XDP_ABORTED as u64), XDP_REDIRECT);
    assert_eq!(socks.redirect(&k, 1, XDP_ABORTED as u64), XDP_ABORTED);
}

#[test]
fn dev_map_lookup_returns_bare_target_index() {
    let mut k = Kernel::new();
    let devs = DevMap::with_max_entries(&mut k, 4, 0);
    assert_eq!(devs.get(&k, 0), None);
    let key = u32_to_le(2);
    let target = u32_to_le(7);
    assert_eq!(k.update_elem(devs.fd, &key, &target, 0), Ok(()));
    assert_eq!(devs.get(&k, 2), Some(7));
    assert_eq!(devs.redirect(&k, 2, XDP_ABORTED as u64), XDP_REDIRECT);
}

#[test]
fn xsk_map_lookup_hands_back_the_opaque_record() {
    let mut k = Kernel::new();
    let socks = XskMap::with_max_entries(&mut k, 1, 0);
    assert_eq!(socks.get(&k, 0), None);
    let key = u32_to_le(0);
    let sock = u32_to_le(42);
    k.update_elem(socks.fd, &key, &sock, 0).unwrap();
    assert_eq!(socks.get(&k, 0), Some(u32_to_le(42)));
}

#[test]
fn example_programs_count_hits_and_redirect() {
    let mut k = Kernel::new();
    let socks = XskMap::with_max_entries(&mut k, 1, 0);
    let devs = DevMap::with_max_entries(&mut k, 1, 0);
    let cpus = CpuMap::with_max_entries(&mut k, 1, 0);
    let devs_hash_fd = k
        .create_table(TableDef {
            map_type: BPF_MAP_TYPE_DEVMAP_HASH,
            key_size: 4,
            value_size: 8,
            max_entries: 4,
            map_flags: 0,
            id: 0,
            pinning: PIN_NONE,
        })
        .unwrap();
    let devs_hash = DevMapHash::new(&k, devs_hash_fd).unwrap();
    let mut counters = HitCounters::new(2);

    // Every slot is empty: each program falls back to the abort action
    // and the probe counters record the attempts.
    assert_eq!(redirect_sock(&k, &socks), XDP_ABORTED);
    assert_eq!(redirect_dev(&k, &devs, &mut counters), XDP_ABORTED);
    assert_eq!(redirect_dev_hash(&k, &devs_hash, &mut counters), XDP_ABORTED);
    assert_eq!(redirect_cpu(&k, &cpus, &mut counters), XDP_ABORTED);
    assert_eq!(counters.hits, vec![3, 0]);

    // The chained programs record their own hit and pass the packet.
    assert_eq!(redirect_cpu_chain(&mut counters), XDP_PASS);
    assert_eq!(redirect_dev_chain(&mut counters), XDP_PASS);
    assert_eq!(counters.hits, vec![3, 2]);

    // Fill the slots the programs consult and run them again.
    k.update_elem(socks.fd, &u32_to_le(0), &u32_to_le(9), 0).unwrap();
    k.update_elem(devs.fd, &u32_to_le(0), &u32_to_le(5), 0).unwrap();
    k.update_elem(cpus.fd, &u32_to_le(0), &two_u32_to_le(64, 0), 0).unwrap();
    k.update_elem(devs_hash_fd, &u32_to_le(10), &two_u32_to_le(6, 0), 0).unwrap();
    assert_eq!(redirect_sock(&k, &socks), XDP_REDIRECT);
    assert_eq!(redirect_dev(&k, &devs, &mut counters), XDP_REDIRECT);
    assert_eq!(redirect_dev_hash(&k, &devs_hash, &mut counters), XDP_REDIRECT);
    assert_eq!(redirect_cpu(&k, &cpus, &mut counters), XDP_REDIRECT);
    assert_eq!(counters.hits, vec![6, 2]);
}

#[test]
fn hit_counters_wrap_and_ignore_missing_slots() {
    let mut counters = HitCounters { hits: vec![u32::MAX, 1] };
    inc_hit(&mut counters, 0);
    assert_eq!(counters.hits, vec![0, 1]);
    inc_hit(&mut counters, 5);
    assert_eq!(counters.hits, vec![0, 1]);
}

#[test]
fn words_are_stored_least_significant_byte_first() {
    assert_eq!(u32_to_le(0x0102_0304), vec![0x04, 0x03, 0x02, 0x01]);
    assert_eq!(u32_to_le(2048), vec![0x00, 0x08, 0x00, 0x00]);
    assert_eq!(
        two_u32_to_le(0x0102_0304, 0xaabb_ccdd),
        vec![0x04, 0x03, 0x02, 0x01, 0xdd, 0xcc, 0xbb, 0xaa]
    );
}

#[test]
fn table_creation_validates_the_layout() {
    let mut k = Kernel::new();
    let mut def = TableDef {
        map_type: 999,
        key_size: 4,
        value_size: 8,
        max_entries: 1,
        map_flags: 0,
        id: 0,
        pinning: PIN_NONE,
    };
    assert_eq!(k.create_table(def), Err(EINVAL));
    def.map_type = BPF_MAP_TYPE_CPUMAP;
    def.max_entries = 0;
    assert_eq!(k.create_table(def), Err(EINVAL));
    def.max_entries = 1;
    def.key_size = 8;
    assert_eq!(k.create_table(def), Err(EINVAL));
    def.key_size = 4;
    def.map_type = BPF_MAP_TYPE_XSKMAP;
    assert_eq!(k.create_table(def), Err(EINVAL));
    def.value_size = 4;
    assert!(k.create_table(def).is_ok());
}

#[test]
fn get_next_key_walks_keys_in_order() {
    let mut k = Kernel::new();
    let fd = k
        .create_table(TableDef {
            map_type: BPF_MAP_TYPE_DEVMAP_HASH,
            key_size: 4,
            value_size: 8,
            max_entries: 8,
            map_flags: 0,
            id: 0,
            pinning: PIN_NONE,
        })
        .unwrap();
    assert_eq!(k.get_next_key(fd, None), Ok(None));
    k.update_elem(fd, &u32_to_le(5), &two_u32_to_le(1, 0), 0).unwrap();
    k.update_elem(fd, &u32_to_le(9), &two_u32_to_le(2, 0), 0).unwrap();
    assert_eq!(k.get_next_key(fd, None), Ok(Some(u32_to_le(5))));
    assert_eq!(k.get_next_key(fd, Some(&u32_to_le(5))), Ok(Some(u32_to_le(9))));
    assert_eq!(k.get_next_key(fd, Some(&u32_to_le(9))), Ok(None));
    // Asking from a key that is no longer present restarts from the
    // first key, as the kernel's own iteration does.
    assert_eq!(k.get_next_key(fd, Some(&u32_to_le(7))), Ok(Some(u32_to_le(5))));
    // A key of the wrong width is rejected.
    assert_eq!(k.get_next_key(fd, Some(&vec![1, 2, 3])), Err(EINVAL));
}

#[test]
fn lookup_rejects_malformed_arguments() {
    let mut k = Kernel::new();
    let fd = k
        .create_table(TableDef {
            map_type: BPF_MAP_TYPE_DEVMAP,
            key_size: 4,
            value_size: 4,
            max_entries: 2,
            map_flags: 0,
            id: 0,
            pinning: PIN_NONE,
        })
        .unwrap();
    assert_eq!(k.lookup_elem(fd, &vec![0, 0, 0], 0), Err(EINVAL));
    assert_eq!(k.lookup_elem(fd + 1, &u32_to_le(0), 0), Err(redirect_maps::defs::EBADF));
    assert_eq!(k.lookup_elem(fd, &u32_to_le(0), 1), Err(EINVAL));
    assert_eq!(k.lookup_elem(fd, &u32_to_le(0), 0), Ok(None));
}
