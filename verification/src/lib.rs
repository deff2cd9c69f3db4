//! Hammeregg signalling core: the envelope codec, the hybrid crypto
//! envelope, the Rooster registry and routing rules, and the home-side
//! signalling state machine, with machine-checked contracts.

pub mod packets;
pub mod wire;
pub mod codec;
pub mod crypto;
pub mod registry;
pub mod home;
pub mod stream;
pub mod input;

use vstd::prelude::*;

verus! {

/// The default port for Hammeregg signalling.
pub const DEFAULT_HAMMEREGG_PORT: u16 = 7269;

/// Magic number in the header of a handshake init packet: the UTF-8
/// bytes of the two code points U+1F528 U+1F95A read as a big-endian
/// 64-bit integer (0xF09F94A8F09FA59A reinterpreted as signed).
pub const MAGIC: i64 = -1108003529997441638;

/// Protocol version 1.0, the only defined version.
pub const VERSION_1_0: u32 = 0x0001_0000;

} // verus!
