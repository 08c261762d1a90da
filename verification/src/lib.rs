//! A verified redirect-map subsystem for XDP-style packet processing.
//!
//! Fast-path programs redirect an inbound packet to another processing
//! unit — a different CPU, a different network device, or a waiting
//! user-space socket — by consulting kernel-resident tables.  Two sides
//! must agree bit-for-bit on the layout and meaning of those tables: the
//! restricted program that runs once per packet, and the control-plane
//! code that creates and populates the tables through system calls.
//!
//! This crate models the whole subsystem so that every rule can be
//! verified:
//!
//! - [`codec`] pins down the exact byte layout of a table entry,
//!   including the direction-dependent chained-program field (a local
//!   handle on write, a global program identifier on read).
//! - [`kernel`] is an in-process model of the kernel side: the tables, the
//!   loaded programs, and the element read/write/delete system calls,
//!   including the handle-to-identifier normalization the kernel performs
//!   when an entry is written.
//! - [`errors`] holds the shared validation run before any system call:
//!   key/value size agreement and index bounds.
//! - [`cpu_map`] and [`dev_map_hash`] are the control-plane handles.
//! - [`xdp_cpu_map`], [`xdp_dev_map`] and [`xdp_xsk_map`] are the
//!   restricted-side table descriptors with their redirect primitive.
//! - [`redirect`] holds small example redirect programs written against
//!   the restricted-side descriptors.

pub mod codec;
pub mod cpu_map;
pub mod defs;
pub mod dev_map_hash;
pub mod errors;
pub mod kernel;
pub mod redirect;
pub mod xdp_cpu_map;
pub mod xdp_dev_map;
pub mod xdp_xsk_map;
