use vstd::prelude::*;

verus! {

/// ✕ (XInput A).
pub const CROSS: u32 = 1;
/// ○ (XInput B).
pub const CIRCLE: u32 = 2;
/// □ (XInput X).
pub const SQUARE: u32 = 4;
/// △ (XInput Y).
pub const TRIANGLE: u32 = 8;
pub const L1: u32 = 16;
pub const R1: u32 = 32;
pub const L2: u32 = 64;
pub const R2: u32 = 128;
/// Share / Create (XInput Back).
pub const SHARE: u32 = 256;
/// Options (XInput Start).
pub const OPTIONS: u32 = 512;
pub const L3: u32 = 1024;
pub const R3: u32 = 2048;
/// PS (XInput Guide).
pub const PS: u32 = 4096;
pub const TOUCHPAD: u32 = 8192;
pub const MUTE: u32 = 16384;

} // verus!
