//! Example redirect programs written against the restricted-side
//! descriptors.
//!
//! Each one mirrors a program the restricted context would run per
//! packet: bump a hit counter, then redirect through one of the table
//! kinds, with the abort action as the fallback when the consulted slot
//! is empty.  The chained variants are the programs a table entry names
//! to run on the redirect target; they only record the hit and pass the
//! packet on.

use vstd::prelude::*;

use crate::defs::{XDP_ABORTED, XDP_PASS};
use crate::dev_map_hash::DevMapHash;
use crate::kernel::Kernel;
use crate::xdp_cpu_map::CpuMap;
use crate::xdp_dev_map::DevMap;
use crate::xdp_xsk_map::XskMap;

verus! {

/// The dense array of hit counters the example programs increment, one
/// slot per probe point.
pub struct HitCounters {
    /// The counters; each wraps around at the largest 32-bit value.
    pub hits: Vec<u32>,
}

/// A counter one above `x`, wrapping to zero at the top of the 32-bit
/// range.
pub open spec fn wrap_inc(x: u32) -> u32 {
    if x == 0xffff_ffff {
        0
    } else {
        (x + 1) as u32
    }
}

/// The counters after a hit on `index`: slot `index` is bumped, a slot
/// beyond the array is left alone (a missed counter never fails the
/// packet path).
pub open spec fn spec_inc_hit(hits: Seq<u32>, index: u32) -> Seq<u32> {
    if index < hits.len() {
        hits.update(index as int, wrap_inc(hits[index as int]))
    } else {
        hits
    }
}

impl HitCounters {
    /// `slots` zeroed counters.
    pub fn new(slots: u32) -> (r: HitCounters)
        ensures
            r.hits@.len() == slots,
            forall|i: int| 0 <= i < slots ==> r.hits@[i] == 0,
    {
        let mut hits: Vec<u32> = Vec::new();
        let mut i: u32 = 0;
        while i < slots
            invariant
                i <= slots,
                hits@.len() == i,
                forall|j: int| 0 <= j < i ==> hits@[j] == 0,
            decreases slots - i,
        {
            hits.push(0);
            i = i + 1;
        }
        HitCounters { hits }
    }
}

/// Bumps the hit counter at `index`, wrapping at the top of the range;
/// an index beyond the counters is ignored.
pub fn inc_hit(counters: &mut HitCounters, index: u32)
    ensures
        final(counters).hits@ == spec_inc_hit(old(counters).hits@, index),
{
    let idx = index as usize;
    if idx < counters.hits.len() {
        let v = counters.hits[idx];
        let bumped: u32 = if v == 0xffff_ffff {
            0
        } else {
            v + 1
        };
        counters.hits[idx] = bumped;
    }
}

/// Redirects the packet to the socket at slot 0, aborting when the slot
/// is empty.
pub fn redirect_sock(k: &Kernel, socks: &XskMap) -> (r: u32)
    ensures
        r == k.spec_redirect(socks.fd as int, 0, XDP_ABORTED as u64),
{
    socks.redirect(k, 0, XDP_ABORTED as u64)
}

/// Records a hit, then redirects the packet to the device at slot 0,
/// aborting when the slot is empty.
pub fn redirect_dev(k: &Kernel, devs: &DevMap, counters: &mut HitCounters) -> (r: u32)
    ensures
        final(counters).hits@ == spec_inc_hit(old(counters).hits@, 0),
        r == k.spec_redirect(devs.fd as int, 0, XDP_ABORTED as u64),
{
    inc_hit(counters, 0);
    devs.redirect(k, 0, XDP_ABORTED as u64)
}

/// Records a hit, then redirects the packet through the hash-indexed
/// device table under key 10, aborting when the key is absent.  The
/// restricted side has no descriptor of its own for the hash-indexed
/// kind in scope: it reuses the dense-table redirect primitive under
/// the hash table's handle.
pub fn redirect_dev_hash(k: &Kernel, devs_hash: &DevMapHash, counters: &mut HitCounters) -> (r:
    u32)
    ensures
        final(counters).hits@ == spec_inc_hit(old(counters).hits@, 0),
        r == k.spec_redirect(devs_hash.fd as int, 10, XDP_ABORTED as u64),
{
    inc_hit(counters, 0);
    k.redirect_map(devs_hash.fd, 10, XDP_ABORTED as u64)
}

/// Records a hit, then redirects the packet to the CPU at slot 0,
/// aborting when the slot is empty.
pub fn redirect_cpu(k: &Kernel, cpus: &CpuMap, counters: &mut HitCounters) -> (r: u32)
    ensures
        final(counters).hits@ == spec_inc_hit(old(counters).hits@, 0),
        r == k.spec_redirect(cpus.fd as int, 0, XDP_ABORTED as u64),
{
    inc_hit(counters, 0);
    cpus.redirect(k, 0, XDP_ABORTED as u64)
}

/// The program a CPU-table entry chains: run on the target CPU after
/// the redirect, it records the hit and passes the packet on.
pub fn redirect_cpu_chain(counters: &mut HitCounters) -> (r: u32)
    ensures
        final(counters).hits@ == spec_inc_hit(old(counters).hits@, 1),
        r == XDP_PASS,
{
    inc_hit(counters, 1);
    XDP_PASS
}

/// The program a device-table entry chains: run before transmission,
/// it records the hit and passes the packet on.
pub fn redirect_dev_chain(counters: &mut HitCounters) -> (r: u32)
    ensures
        final(counters).hits@ == spec_inc_hit(old(counters).hits@, 1),
        r == XDP_PASS,
{
    inc_hit(counters, 1);
    XDP_PASS
}

} // verus!
