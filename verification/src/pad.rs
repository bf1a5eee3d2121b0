use vstd::prelude::*;
use crate::buttons::{
    CIRCLE, CROSS, L1, L3, OPTIONS, PS, R1, R3, SHARE, SQUARE, TRIANGLE,
};

verus! {

pub const VID_SONY: u16 = 0x054C;
pub const PID_DS4_V1: u16 = 0x05C4;
pub const PID_DS4_V2: u16 = 0x09CC;
pub const PID_DS4_DONGLE: u16 = 0x0BA0;
pub const PID_DUALSENSE: u16 = 0x0CE6;
pub const PID_DUALSENSE_EDGE: u16 = 0x0DF2;

/// Which Sony (or generic) pad family we are talking to.
#[derive(Debug, Clone, Copy, PartialEq, Eq, Structural)]
pub enum PadKind {
    DualShock4,
    DualSense,
    DualSenseEdge,
    XInput,
    Generic,
}

/// The family a vendor / product id pair identifies.
pub open spec fn kind_of_ids(vid: u16, pid: u16) -> PadKind {
    if vid == VID_SONY && (pid == PID_DS4_V1 || pid == PID_DS4_V2 || pid == PID_DS4_DONGLE) {
        PadKind::DualShock4
    } else if vid == VID_SONY && pid == PID_DUALSENSE {
        PadKind::DualSense
    } else if vid == VID_SONY && pid == PID_DUALSENSE_EDGE {
        PadKind::DualSenseEdge
    } else {
        PadKind::Generic
    }
}

/// The display name of a pad family.
pub open spec fn spec_label(k: PadKind) -> Seq<char> {
    match k {
        PadKind::DualShock4 => "DualShock 4"@,
        PadKind::DualSense => "DualSense"@,
        PadKind::DualSenseEdge => "DualSense Edge"@,
        PadKind::XInput => "XInput Controller"@,
        PadKind::Generic => "Generic HID Pad"@,
    }
}

impl PadKind {
    pub fn from_ids(vid: u16, pid: u16) -> (k: PadKind)
        ensures
            k == kind_of_ids(vid, pid),
    {
        if vid == VID_SONY && (pid == PID_DS4_V1 || pid == PID_DS4_V2 || pid == PID_DS4_DONGLE) {
            PadKind::DualShock4
        } else if vid == VID_SONY && pid == PID_DUALSENSE {
            PadKind::DualSense
        } else if vid == VID_SONY && pid == PID_DUALSENSE_EDGE {
            PadKind::DualSenseEdge
        } else {
            PadKind::Generic
        }
    }

    pub fn label(&self) -> (s: &'static str)
        ensures
            s@ == spec_label(*self),
            *self == PadKind::DualShock4 ==> s@ == "DualShock 4"@,
            *self == PadKind::DualSense ==> s@ == "DualSense"@,
            *self == PadKind::DualSenseEdge ==> s@ == "DualSense Edge"@,
            *self == PadKind::XInput ==> s@ == "XInput Controller"@,
            *self == PadKind::Generic ==> s@ == "Generic HID Pad"@,
    {
        match self {
            PadKind::DualShock4 => "DualShock 4",
            PadKind::DualSense => "DualSense",
            PadKind::DualSenseEdge => "DualSense Edge",
            PadKind::XInput => "XInput Controller",
            PadKind::Generic => "Generic HID Pad",
        }
    }

    /// A PlayStation pad: a family whose input reports the library reads.
    pub open spec fn spec_is_playstation(&self) -> bool {
        *self == PadKind::DualShock4 || *self == PadKind::DualSense || *self == PadKind::DualSenseEdge
    }

    #[verifier::when_used_as_spec(spec_is_playstation)]
    pub fn is_playstation(&self) -> (b: bool)
        ensures
            b == self.spec_is_playstation(),
    {
        match self {
            PadKind::DualShock4 | PadKind::DualSense | PadKind::DualSenseEdge => true,
            _ => false,
        }
    }

    pub open spec fn spec_has_lightbar(&self) -> bool {
        *self == PadKind::DualShock4 || *self == PadKind::DualSense || *self == PadKind::DualSenseEdge
    }

    #[verifier::when_used_as_spec(spec_has_lightbar)]
    pub fn has_lightbar(&self) -> (b: bool)
        ensures
            b == self.spec_has_lightbar(),
    {
        match self {
            PadKind::DualShock4 | PadKind::DualSense | PadKind::DualSenseEdge => true,
            _ => false,
        }
    }
}

#[derive(Debug, Clone, Copy, PartialEq, Eq, Structural)]
pub enum ConnectionType {
    Usb,
    Bluetooth,
}


// ---------------------------------------------------------------------------
// Button remapping
// ---------------------------------------------------------------------------

/// Bit `t` of `x`.
pub open spec fn bit(x: u32, t: u32) -> bool {
    (x >> t) & 1 == 1
}

/// The target bit a map entry selects (only the low 4 bits count).
pub open spec fn target_of(map: [u8; 16], src: int) -> u32 {
    (map@[src] & 15) as u32
}

/// Remap of the first `n` source bits of `mask` through `map`.
pub open spec fn remap_prefix(mask: u32, map: [u8; 16], n: nat) -> u32
    decreases n,
{
    if n == 0 {
        0
    } else {
        let src = (n - 1) as u32;
        remap_prefix(mask, map, (n - 1) as nat) | (if mask & (1u32 << src) != 0 {
            1u32 << target_of(map, src as int)
        } else {
            0u32
        })
    }
}

/// `remap_buttons` of a mask: every set source bit `s < 16` sets target bit
/// `map[s] & 15`.
pub open spec fn spec_remap_buttons(mask: u32, map: [u8; 16]) -> u32 {
    remap_prefix(mask, map, 16)
}

/// Remaps a PS button bitmask through the per-profile `button_map`
/// (index = physical source bit, value = target bit, taken modulo 16).
pub fn remap_buttons(mask: u32, map: &[u8; 16]) -> (out: u32)
    ensures
        out == spec_remap_buttons(mask, *map),
{
    let mut out: u32 = 0;
    let mut src: u32 = 0;
    while src < 16
        invariant
            src <= 16,
            out == remap_prefix(mask, *map, src as nat),
        decreases 16 - src,
    {
        let m = map[src as usize];
        assert(m & 15 < 16) by (bit_vector);
        let dst = (m & 15) as u32;
        out = out | (if mask & (1u32 << src) != 0 {
            1u32 << dst
        } else {
            0u32
        });
        src = src + 1;
    }
    out
}


/// Source bit `s` of `mask` is pressed.
pub open spec fn src_set(mask: u32, s: int) -> bool {
    mask & (1u32 << (s as u32)) != 0
}

proof fn lemma_bit_or_shift(x: u32, d: u32, t: u32)
    requires
        d < 16,
        t < 32,
    ensures
        bit(x | (1u32 << d), t) == (bit(x, t) || d == t),
        bit(x | 0u32, t) == bit(x, t),
        x < 65536 ==> (x | (1u32 << d)) < 65536,
        x | 0u32 == x,
{
    assert(((x | (1u32 << d)) >> t) & 1 == 1 <==> ((x >> t) & 1 == 1 || d == t)) by (bit_vector)
        requires
            d < 16,
            t < 32,
    ;
    assert(x | 0u32 == x) by (bit_vector);
    assert(x < 65536 ==> (x | (1u32 << d)) < 65536) by (bit_vector)
        requires
            d < 16,
    ;
}

proof fn lemma_target_small(map: [u8; 16], s: int)
    requires
        0 <= s < 16,
    ensures
        target_of(map, s) < 16,
{
    let m = map@[s];
    assert(m & 15 < 16) by (bit_vector);
}

/// The remapped mask only ever uses the 16 XInput-addressable bits, and
/// target bit `t` is set exactly when some pressed source bit `s < n` maps
/// onto it.
pub proof fn lemma_remap_prefix_bits(mask: u32, map: [u8; 16], n: nat, t: u32)
    requires
        n <= 16,
        t < 32,
    ensures
        remap_prefix(mask, map, n) < 65536,
        bit(remap_prefix(mask, map, n), t) <==> exists|s: int|
            0 <= s < n && #[trigger] src_set(mask, s) && target_of(map, s) == t,
    decreases n,
{
    if n == 0 {
        assert(((0u32 >> t) & 1) == 0) by (bit_vector);
    } else {
        let s = (n - 1) as int;
        lemma_remap_prefix_bits(mask, map, (n - 1) as nat, t);
        lemma_target_small(map, s);
        let prev = remap_prefix(mask, map, (n - 1) as nat);
        lemma_bit_or_shift(prev, target_of(map, s), t);
        if src_set(mask, s) && target_of(map, s) == t {
            assert(bit(remap_prefix(mask, map, n), t));
        }
        if bit(remap_prefix(mask, map, n), t) {
            if !(src_set(mask, s) && target_of(map, s) == t) {
                let w = choose|w: int|
                    0 <= w < n - 1 && #[trigger] src_set(mask, w) && target_of(map, w) == t;
                assert(0 <= w < n && src_set(mask, w) && target_of(map, w) == t);
            }
        }
    }
}

/// Remapping keeps only the 16 XInput-addressable bits, and target bit `t`
/// of the result is set exactly when some pressed source button is mapped
/// onto `t` (several sources may share one target).
pub proof fn lemma_remap_buttons_bits(mask: u32, map: [u8; 16], t: u32)
    requires
        t < 32,
    ensures
        spec_remap_buttons(mask, map) < 65536,
        bit(spec_remap_buttons(mask, map), t) <==> exists|s: int|
            0 <= s < 16 && #[trigger] src_set(mask, s) && (map@[s] & 15) == t,
{
    lemma_remap_prefix_bits(mask, map, 16, t);
}

/// The identity map (`map[i] == i`) keeps every button of the low 16 bits
/// and nothing else.
pub proof fn lemma_remap_identity(mask: u32, map: [u8; 16])
    requires
        forall|i: int| 0 <= i < 16 ==> map@[i] == i,
    ensures
        spec_remap_buttons(mask, map) == mask & 0xFFFF,
{
    assert forall|n: nat| n <= 16 implies remap_prefix(mask, map, n) == mask & (((1u64 << (n as u64))
        - 1) as u32) by {
        lemma_remap_identity_prefix(mask, map, n);
    }
    assert(((1u64 << 16u64) - 1) as u32 == 0xFFFFu32) by (bit_vector);
}

proof fn lemma_remap_identity_prefix(mask: u32, map: [u8; 16], n: nat)
    requires
        forall|i: int| 0 <= i < 16 ==> map@[i] == i,
        n <= 16,
    ensures
        remap_prefix(mask, map, n) == mask & (((1u64 << (n as u64)) - 1) as u32),
    decreases n,
{
    if n == 0 {
        assert(mask & (((1u64 << 0u64) - 1) as u32) == 0) by (bit_vector);
    } else {
        let k = (n - 1) as u32;
        lemma_remap_identity_prefix(mask, map, (n - 1) as nat);
        let m = map@[k as int];
        assert(m == k);
        assert(m & 15 == m) by (bit_vector)
            requires
                m < 16,
        ;
        assert(target_of(map, k as int) == k);
        assert((mask & (((1u64 << (k as u64)) - 1) as u32)) | (if mask & (1u32 << k) != 0 {
            1u32 << k
        } else {
            0u32
        }) == mask & (((1u64 << ((k + 1) as u64)) - 1) as u32)) by (bit_vector)
            requires
                k < 16,
        ;
        assert((k + 1) as u64 == n as u64);
    }
}

/// Remapping distributes over pressing buttons together:
/// `remap(a | b) == remap(a) | remap(b)`.
pub proof fn lemma_remap_union(a: u32, b: u32, map: [u8; 16])
    ensures
        spec_remap_buttons(a | b, map) == spec_remap_buttons(a, map) | spec_remap_buttons(b, map),
{
    lemma_remap_union_prefix(a, b, map, 16);
}

proof fn lemma_remap_union_prefix(a: u32, b: u32, map: [u8; 16], n: nat)
    requires
        n <= 16,
    ensures
        remap_prefix(a | b, map, n) == remap_prefix(a, map, n) | remap_prefix(b, map, n),
    decreases n,
{
    if n == 0 {
        assert(0u32 | 0u32 == 0u32) by (bit_vector);
    } else {
        let s = (n - 1) as u32;
        lemma_remap_union_prefix(a, b, map, (n - 1) as nat);
        let pa = remap_prefix(a, map, (n - 1) as nat);
        let pb = remap_prefix(b, map, (n - 1) as nat);
        let d = 1u32 << target_of(map, s as int);
        assert((pa | pb) | (if (a | b) & (1u32 << s) != 0 { d } else { 0u32 }) == (pa | (if a & (1u32
            << s) != 0 {
            d
        } else {
            0u32
        })) | (pb | (if b & (1u32 << s) != 0 { d } else { 0u32 }))) by (bit_vector);
    }
}

// ---------------------------------------------------------------------------
// PS → XInput button report
// ---------------------------------------------------------------------------

/// XInput (XUSB) button bits.
pub const XINPUT_DPAD_UP: u16 = 0x0001;
pub const XINPUT_DPAD_DOWN: u16 = 0x0002;
pub const XINPUT_DPAD_LEFT: u16 = 0x0004;
pub const XINPUT_DPAD_RIGHT: u16 = 0x0008;
pub const XINPUT_START: u16 = 0x0010;
pub const XINPUT_BACK: u16 = 0x0020;
pub const XINPUT_LEFT_THUMB: u16 = 0x0040;
pub const XINPUT_RIGHT_THUMB: u16 = 0x0080;
pub const XINPUT_LEFT_SHOULDER: u16 = 0x0100;
pub const XINPUT_RIGHT_SHOULDER: u16 = 0x0200;
pub const XINPUT_GUIDE: u16 = 0x0400;
pub const XINPUT_A: u16 = 0x1000;
pub const XINPUT_B: u16 = 0x2000;
pub const XINPUT_X: u16 = 0x4000;
pub const XINPUT_Y: u16 = 0x8000;

/// `x` when `mask` has any bit of `btn`.
pub open spec fn xflag(mask: u32, btn: u32, x: u16) -> u16 {
    if mask & btn != 0 {
        x
    } else {
        0
    }
}

/// XInput d-pad bits of a hat value (0 = up, clockwise in eighths; other
/// values are neutral).
pub open spec fn dpad_bits(dpad: u8) -> u16 {
    if dpad == 0 {
        XINPUT_DPAD_UP
    } else if dpad == 1 {
        XINPUT_DPAD_UP | XINPUT_DPAD_RIGHT
    } else if dpad == 2 {
        XINPUT_DPAD_RIGHT
    } else if dpad == 3 {
        XINPUT_DPAD_DOWN | XINPUT_DPAD_RIGHT
    } else if dpad == 4 {
        XINPUT_DPAD_DOWN
    } else if dpad == 5 {
        XINPUT_DPAD_DOWN | XINPUT_DPAD_LEFT
    } else if dpad == 6 {
        XINPUT_DPAD_LEFT
    } else if dpad == 7 {
        XINPUT_DPAD_UP | XINPUT_DPAD_LEFT
    } else {
        0
    }
}

/// The XInput button word for a PS button mask and d-pad hat. L2 / R2 are
/// analogue triggers in XInput, and touchpad / mute have no XInput button.
pub open spec fn spec_xinput_buttons(mask: u32, dpad: u8) -> u16 {
    xflag(mask, CROSS, XINPUT_A) | xflag(mask, CIRCLE, XINPUT_B) | xflag(mask, SQUARE, XINPUT_X)
        | xflag(mask, TRIANGLE, XINPUT_Y) | xflag(mask, L1, XINPUT_LEFT_SHOULDER) | xflag(
        mask,
        R1,
        XINPUT_RIGHT_SHOULDER,
    ) | xflag(mask, SHARE, XINPUT_BACK) | xflag(mask, OPTIONS, XINPUT_START) | xflag(
        mask,
        L3,
        XINPUT_LEFT_THUMB,
    ) | xflag(mask, R3, XINPUT_RIGHT_THUMB) | xflag(mask, PS, XINPUT_GUIDE) | dpad_bits(dpad)
}

fn dpad_bits_exec(dpad: u8) -> (b: u16)
    ensures
        b == dpad_bits(dpad),
{
    match dpad {
        0 => XINPUT_DPAD_UP,
        1 => XINPUT_DPAD_UP | XINPUT_DPAD_RIGHT,
        2 => XINPUT_DPAD_RIGHT,
        3 => XINPUT_DPAD_DOWN | XINPUT_DPAD_RIGHT,
        4 => XINPUT_DPAD_DOWN,
        5 => XINPUT_DPAD_DOWN | XINPUT_DPAD_LEFT,
        6 => XINPUT_DPAD_LEFT,
        7 => XINPUT_DPAD_UP | XINPUT_DPAD_LEFT,
        _ => 0,
    }
}

/// Builds the virtual Xbox 360 pad's button word from a PS button mask and
/// the d-pad hat value.
pub fn xinput_buttons(mask: u32, dpad: u8) -> (b: u16)
    ensures
        b == spec_xinput_buttons(mask, dpad),
{
    (if mask & CROSS != 0 { XINPUT_A } else { 0 }) | (if mask & CIRCLE != 0 { XINPUT_B } else { 0 })
        | (if mask & SQUARE != 0 { XINPUT_X } else { 0 }) | (if mask & TRIANGLE != 0 {
        XINPUT_Y
    } else {
        0
    }) | (if mask & L1 != 0 { XINPUT_LEFT_SHOULDER } else { 0 }) | (if mask & R1 != 0 {
        XINPUT_RIGHT_SHOULDER
    } else {
        0
    }) | (if mask & SHARE != 0 { XINPUT_BACK } else { 0 }) | (if mask & OPTIONS != 0 {
        XINPUT_START
    } else {
        0
    }) | (if mask & L3 != 0 { XINPUT_LEFT_THUMB } else { 0 }) | (if mask & R3 != 0 {
        XINPUT_RIGHT_THUMB
    } else {
        0
    }) | (if mask & PS != 0 { XINPUT_GUIDE } else { 0 }) | dpad_bits_exec(dpad)
}


/// Each XInput button is pressed exactly when its PS button is, the d-pad
/// bits come from the hat alone, and the one unused bit stays clear.
pub proof fn lemma_xinput_buttons_bits(mask: u32, dpad: u8)
    ensures
        (spec_xinput_buttons(mask, dpad) & XINPUT_A != 0) == (mask & CROSS != 0),
        (spec_xinput_buttons(mask, dpad) & XINPUT_B != 0) == (mask & CIRCLE != 0),
        (spec_xinput_buttons(mask, dpad) & XINPUT_X != 0) == (mask & SQUARE != 0),
        (spec_xinput_buttons(mask, dpad) & XINPUT_Y != 0) == (mask & TRIANGLE != 0),
        (spec_xinput_buttons(mask, dpad) & XINPUT_LEFT_SHOULDER != 0) == (mask & L1 != 0),
        (spec_xinput_buttons(mask, dpad) & XINPUT_RIGHT_SHOULDER != 0) == (mask & R1 != 0),
        (spec_xinput_buttons(mask, dpad) & XINPUT_BACK != 0) == (mask & SHARE != 0),
        (spec_xinput_buttons(mask, dpad) & XINPUT_START != 0) == (mask & OPTIONS != 0),
        (spec_xinput_buttons(mask, dpad) & XINPUT_LEFT_THUMB != 0) == (mask & L3 != 0),
        (spec_xinput_buttons(mask, dpad) & XINPUT_RIGHT_THUMB != 0) == (mask & R3 != 0),
        (spec_xinput_buttons(mask, dpad) & XINPUT_GUIDE != 0) == (mask & PS != 0),
        spec_xinput_buttons(mask, dpad) & 0x000F == dpad_bits(dpad),
        spec_xinput_buttons(mask, dpad) & 0x0800 == 0,
{
    let d = dpad_bits(dpad);
    assert(1u16 | 8u16 == 9u16 && 2u16 | 8u16 == 10u16 && 2u16 | 4u16 == 6u16 && 1u16 | 4u16 == 5u16) by (bit_vector);
    assert(d & 0xFFF0 == 0) by (bit_vector)
        requires
            d == 0 || d == 1 || d == 2 || d == 4 || d == 8 || d == 9 || d == 10 || d == 5 || d == 6,
    ;
    let a = xflag(mask, CROSS, XINPUT_A);
    let b = xflag(mask, CIRCLE, XINPUT_B);
    let x = xflag(mask, SQUARE, XINPUT_X);
    let y = xflag(mask, TRIANGLE, XINPUT_Y);
    let lb = xflag(mask, L1, XINPUT_LEFT_SHOULDER);
    let rb = xflag(mask, R1, XINPUT_RIGHT_SHOULDER);
    let back = xflag(mask, SHARE, XINPUT_BACK);
    let start = xflag(mask, OPTIONS, XINPUT_START);
    let lt = xflag(mask, L3, XINPUT_LEFT_THUMB);
    let rt = xflag(mask, R3, XINPUT_RIGHT_THUMB);
    let g = xflag(mask, PS, XINPUT_GUIDE);
    let w = spec_xinput_buttons(mask, dpad);
    assert(w == a | b | x | y | lb | rb | back | start | lt | rt | g | d);
    assert({
        &&& (w & 0x1000 != 0) == (a == 0x1000)
        &&& (w & 0x2000 != 0) == (b == 0x2000)
        &&& (w & 0x4000 != 0) == (x == 0x4000)
        &&& (w & 0x8000 != 0) == (y == 0x8000)
        &&& (w & 0x0100 != 0) == (lb == 0x0100)
        &&& (w & 0x0200 != 0) == (rb == 0x0200)
        &&& (w & 0x0020 != 0) == (back == 0x0020)
        &&& (w & 0x0010 != 0) == (start == 0x0010)
        &&& (w & 0x0040 != 0) == (lt == 0x0040)
        &&& (w & 0x0080 != 0) == (rt == 0x0080)
        &&& (w & 0x0400 != 0) == (g == 0x0400)
        &&& w & 0x000F == d
        &&& w & 0x0800 == 0
    }) by (bit_vector)
        requires
            w == a | b | x | y | lb | rb | back | start | lt | rt | g | d,
            a == 0 || a == 0x1000,
            b == 0 || b == 0x2000,
            x == 0 || x == 0x4000,
            y == 0 || y == 0x8000,
            lb == 0 || lb == 0x0100,
            rb == 0 || rb == 0x0200,
            back == 0 || back == 0x0020,
            start == 0 || start == 0x0010,
            lt == 0 || lt == 0x0040,
            rt == 0 || rt == 0x0080,
            g == 0 || g == 0x0400,
            d & 0xFFF0 == 0,
    ;
}


/// The d-pad bits of the XInput word follow the hat's direction, whatever
/// the buttons: up (0x0001) for hats 0, 1 and 7; right (0x0008) for hats 1,
/// 2 and 3; down (0x0002) for hats 3, 4 and 5; left (0x0004) for hats 5, 6
/// and 7; and none for a neutral hat (8 and above).
pub proof fn lemma_xinput_dpad_directions(mask: u32, dpad: u8)
    ensures
        (spec_xinput_buttons(mask, dpad) & 0x0001 != 0) == (dpad == 0 || dpad == 1 || dpad == 7),
        (spec_xinput_buttons(mask, dpad) & 0x0008 != 0) == (dpad == 1 || dpad == 2 || dpad == 3),
        (spec_xinput_buttons(mask, dpad) & 0x0002 != 0) == (dpad == 3 || dpad == 4 || dpad == 5),
        (spec_xinput_buttons(mask, dpad) & 0x0004 != 0) == (dpad == 5 || dpad == 6 || dpad == 7),
        dpad >= 8 ==> spec_xinput_buttons(mask, dpad) & 0x000F == 0,
{
    lemma_xinput_buttons_bits(mask, dpad);
    let w = spec_xinput_buttons(mask, dpad);
    let d = dpad_bits(dpad);
    assert(1u16 | 8u16 == 9u16 && 2u16 | 8u16 == 10u16 && 2u16 | 4u16 == 6u16 && 1u16 | 4u16 == 5u16) by (bit_vector);
    assert(w & 1 == d & 1 && w & 8 == d & 8 && w & 2 == d & 2 && w & 4 == d & 4) by (bit_vector)
        requires
            w & 0x000F == d,
    ;
    assert({
        &&& (d & 1 != 0) == (d == 1 || d == 9 || d == 5)
        &&& (d & 8 != 0) == (d == 9 || d == 8 || d == 10)
        &&& (d & 2 != 0) == (d == 10 || d == 2 || d == 6)
        &&& (d & 4 != 0) == (d == 6 || d == 4 || d == 5)
    }) by (bit_vector)
        requires
            d == 0 || d == 1 || d == 9 || d == 8 || d == 10 || d == 2 || d == 6 || d == 4 || d == 5,
    ;
}

} // verus!
