use vstd::prelude::*;
use crate::pad::{ConnectionType, PadKind};

verus! {

// ---------------------------------------------------------------------------
// CRC-32 (IEEE 802.3, reflected, polynomial 0xEDB88320)
// ---------------------------------------------------------------------------

/// The reflected CRC polynomial.
pub const CRC32_POLY: u32 = 0xEDB8_8320;

/// One bit step of the reflected CRC register.
pub open spec fn crc_shift(c: u32) -> u32 {
    if c & 1 == 1 {
        (c >> 1) ^ CRC32_POLY
    } else {
        c >> 1
    }
}

/// `n` bit steps of the CRC register.
pub open spec fn crc_shift_n(c: u32, n: nat) -> u32
    decreases n,
{
    if n == 0 {
        c
    } else {
        crc_shift(crc_shift_n(c, (n - 1) as nat))
    }
}

/// Folds one byte into the CRC register.
pub open spec fn crc_byte(c: u32, b: u8) -> u32 {
    crc_shift_n(c ^ (b as u32), 8)
}

/// Folds a byte sequence (first byte first) into the CRC register.
pub open spec fn crc_update(c: u32, data: Seq<u8>) -> u32
    decreases data.len(),
{
    if data.len() == 0 {
        c
    } else {
        crc_byte(crc_update(c, data.drop_last()), data.last())
    }
}

/// CRC-32 of a byte sequence: register preset to all ones, result inverted.
pub open spec fn spec_crc32(data: Seq<u8>) -> u32 {
    !crc_update(0xFFFF_FFFFu32, data)
}

/// Folding `a` and then `b` is folding their concatenation.
pub proof fn lemma_crc_update_concat(c: u32, a: Seq<u8>, b: Seq<u8>)
    ensures
        crc_update(crc_update(c, a), b) == crc_update(c, a + b),
    decreases b.len(),
{
    if b.len() == 0 {
        assert(a + b =~= a);
    } else {
        lemma_crc_update_concat(c, a, b.drop_last());
        assert((a + b).drop_last() =~= a + b.drop_last());
        assert((a + b).last() == b.last());
    }
}

/// The CRC of a seed followed by data is the CRC of the concatenated bytes:
/// splitting the input between `seed` and `data` never changes the result.
pub proof fn lemma_crc32_seed_is_prefix(seed: Seq<u8>, data: Seq<u8>)
    ensures
        spec_crc32(seed + data) == !crc_update(crc_update(0xFFFF_FFFFu32, seed), data),
        spec_crc32(seed + data) == spec_crc32(Seq::<u8>::empty() + (seed + data)),
{
    lemma_crc_update_concat(0xFFFF_FFFFu32, seed, data);
    assert(Seq::<u8>::empty() + (seed + data) =~= seed + data);
}

fn crc_byte_exec(c: u32, b: u8) -> (r: u32)
    ensures
        r == crc_byte(c, b),
{
    let mut crc = c ^ (b as u32);
    let ghost c0 = crc;
    let mut k: u32 = 0;
    while k < 8
        invariant
            k <= 8,
            c0 == c ^ (b as u32),
            crc == crc_shift_n(c0, k as nat),
        decreases 8 - k,
    {
        crc = if crc & 1 == 1 {
            (crc >> 1) ^ CRC32_POLY
        } else {
            crc >> 1
        };
        k = k + 1;
    }
    crc
}

/// Folds `data[..end]` into the register `c`.
fn crc_update_exec(c: u32, data: &[u8], end: usize) -> (r: u32)
    requires
        end <= data@.len(),
    ensures
        r == crc_update(c, data@.take(end as int)),
{
    let mut crc = c;
    let mut i: usize = 0;
    while i < end
        invariant
            i <= end,
            end <= data@.len(),
            crc == crc_update(c, data@.take(i as int)),
        decreases end - i,
    {
        proof {
            assert(data@.take(i + 1).drop_last() =~= data@.take(i as int));
        }
        crc = crc_byte_exec(crc, data[i]);
        i = i + 1;
    }
    crc
}

/// CRC-32 (IEEE, reflected) of `seed` followed by `data`, as used by the
/// Bluetooth output reports.
pub fn crc32(seed: &[u8], data: &[u8]) -> (r: u32)
    ensures
        r == spec_crc32(seed@ + data@),
{
    let a = crc_update_exec(0xFFFF_FFFFu32, seed, seed.len());
    let b = crc_update_exec(a, data, data.len());
    proof {
        assert(seed@.take(seed@.len() as int) =~= seed@);
        assert(data@.take(data@.len() as int) =~= data@);
        lemma_crc_update_concat(0xFFFF_FFFFu32, seed@, data@);
    }
    !b
}

} // verus!

verus! {

// ---------------------------------------------------------------------------
// Lightbar / rumble output reports
// ---------------------------------------------------------------------------

/// Little-endian bytes of a `u32`.
pub open spec fn le_bytes_u32(x: u32) -> Seq<u8> {
    seq![(x % 256) as u8, ((x / 256) % 256) as u8, ((x / 65536) % 256) as u8, (x / 16777216) as u8]
}

/// DualShock 4 over USB: report `0x05`, 32 bytes.
pub open spec fn ds4_usb_report(led: [u8; 3], weak: u8, strong: u8) -> Seq<u8> {
    Seq::new(
        32,
        |i: int|
            if i == 0 {
                0x05u8
            } else if i == 1 {
                0xF7u8
            } else if i == 4 {
                weak
            } else if i == 5 {
                strong
            } else if 6 <= i < 9 {
                led@[i - 6]
            } else {
                0u8
            },
    )
}

/// DualShock 4 over Bluetooth: report `0x11`, first 74 bytes (before the CRC).
pub open spec fn ds4_bt_body(led: [u8; 3], weak: u8, strong: u8) -> Seq<u8> {
    Seq::new(
        74,
        |i: int|
            if i == 0 {
                0x11u8
            } else if i == 1 {
                0xC0u8
            } else if i == 2 {
                0x20u8
            } else if i == 3 {
                0xF7u8
            } else if i == 6 {
                weak
            } else if i == 7 {
                strong
            } else if 8 <= i < 11 {
                led@[i - 8]
            } else {
                0u8
            },
    )
}

/// DualSense / DualSense Edge over USB: report `0x02`, 48 bytes.
pub open spec fn dualsense_usb_report(led: [u8; 3], weak: u8, strong: u8) -> Seq<u8> {
    Seq::new(
        48,
        |i: int|
            if i == 0 {
                0x02u8
            } else if i == 1 {
                0xFFu8
            } else if i == 2 {
                0xF7u8
            } else if i == 3 {
                weak
            } else if i == 4 {
                strong
            } else if 45 <= i < 48 {
                led@[i - 45]
            } else {
                0u8
            },
    )
}

/// DualSense / DualSense Edge over Bluetooth: report `0x31`, first 74 bytes.
pub open spec fn dualsense_bt_body(led: [u8; 3], weak: u8, strong: u8) -> Seq<u8> {
    Seq::new(
        74,
        |i: int|
            if i == 0 {
                0x31u8
            } else if i == 1 {
                0x02u8
            } else if i == 2 {
                0xFFu8
            } else if i == 3 {
                0xF7u8
            } else if i == 4 {
                weak
            } else if i == 5 {
                strong
            } else if 46 <= i < 49 {
                led@[i - 46]
            } else {
                0u8
            },
    )
}

/// A Bluetooth report: the 74-byte body followed by the little-endian CRC-32
/// of the `0xA2` output header and the body.
pub open spec fn with_bt_crc(body: Seq<u8>) -> Seq<u8> {
    body + le_bytes_u32(spec_crc32(seq![0xA2u8] + body))
}

/// The output report for a pad, `None` for pads without a lightbar.
pub open spec fn spec_output_report(
    kind: PadKind,
    connection: ConnectionType,
    led: [u8; 3],
    weak: u8,
    strong: u8,
) -> Option<Seq<u8>> {
    match (kind, connection) {
        (PadKind::DualShock4, ConnectionType::Usb) => Some(ds4_usb_report(led, weak, strong)),
        (PadKind::DualShock4, ConnectionType::Bluetooth) => Some(
            with_bt_crc(ds4_bt_body(led, weak, strong)),
        ),
        (PadKind::DualSense, ConnectionType::Usb) | (PadKind::DualSenseEdge, ConnectionType::Usb) => Some(
            dualsense_usb_report(led, weak, strong),
        ),
        (PadKind::DualSense, ConnectionType::Bluetooth) | (
            PadKind::DualSenseEdge,
            ConnectionType::Bluetooth,
        ) => Some(with_bt_crc(dualsense_bt_body(led, weak, strong))),
        _ => None,
    }
}

fn zeroed(n: usize) -> (v: Vec<u8>)
    ensures
        v@ == Seq::new(n as nat, |i: int| 0u8),
{
    let mut v: Vec<u8> = Vec::new();
    let mut i: usize = 0;
    while i < n
        invariant
            i <= n,
            v@ == Seq::new(i as nat, |j: int| 0u8),
        decreases n - i,
    {
        v.push(0u8);
        i = i + 1;
    }
    v
}

/// Appends the CRC-32 of `0xA2 ++ body` (little endian) to a 74-byte body.
fn append_bt_crc(buf: &mut Vec<u8>)
    requires
        old(buf)@.len() == 74,
    ensures
        final(buf)@ == with_bt_crc(old(buf)@),
{
    let header: [u8; 1] = [0xA2u8];
    let crc = crc32(header.as_slice(), buf.as_slice());
    proof {
        assert(header@ =~= seq![0xA2u8]);
    }
    buf.push((crc % 256) as u8);
    buf.push(((crc / 256) % 256) as u8);
    buf.push(((crc / 65536) % 256) as u8);
    buf.push((crc / 16777216) as u8);
    proof {
        assert(final(buf)@ =~= with_bt_crc(old(buf)@));
    }
}

/// Builds the lightbar / rumble output report for a pad, ready to write.
///
/// `rumble` is the `(weak, strong)` motor intensity as bytes. Pads without
/// an addressable lightbar get `None`. Bluetooth variants carry the CRC-32 of
/// the first 74 bytes in the last 4.
pub fn build_output_report(
    kind: PadKind,
    connection: ConnectionType,
    led: [u8; 3],
    rumble: (u8, u8),
) -> (r: Option<Vec<u8>>)
    ensures
        match spec_output_report(kind, connection, led, rumble.0, rumble.1) {
            Some(bytes) => r is Some && r->0@ == bytes,
            None => r is None,
        },
{
    let weak = rumble.0;
    let strong = rumble.1;
    match (kind, connection) {
        (PadKind::DualShock4, ConnectionType::Usb) => {
            let mut buf = zeroed(32);
            buf.set(0, 0x05);
            buf.set(1, 0xF7);
            buf.set(4, weak);
            buf.set(5, strong);
            buf.set(6, led[0]);
            buf.set(7, led[1]);
            buf.set(8, led[2]);
            proof {
                assert(buf@ =~= ds4_usb_report(led, weak, strong));
            }
            Some(buf)
        },
        (PadKind::DualShock4, ConnectionType::Bluetooth) => {
            let mut buf = zeroed(74);
            buf.set(0, 0x11);
            buf.set(1, 0xC0);
            buf.set(2, 0x20);
            buf.set(3, 0xF7);
            buf.set(6, weak);
            buf.set(7, strong);
            buf.set(8, led[0]);
            buf.set(9, led[1]);
            buf.set(10, led[2]);
            proof {
                assert(buf@ =~= ds4_bt_body(led, weak, strong));
            }
            append_bt_crc(&mut buf);
            Some(buf)
        },
        (PadKind::DualSense, ConnectionType::Usb) | (PadKind::DualSenseEdge, ConnectionType::Usb) => {
            let mut buf = zeroed(48);
            buf.set(0, 0x02);
            buf.set(1, 0xFF);
            buf.set(2, 0xF7);
            buf.set(3, weak);
            buf.set(4, strong);
            buf.set(45, led[0]);
            buf.set(46, led[1]);
            buf.set(47, led[2]);
            proof {
                assert(buf@ =~= dualsense_usb_report(led, weak, strong));
            }
            Some(buf)
        },
        (PadKind::DualSense, ConnectionType::Bluetooth) | (
            PadKind::DualSenseEdge,
            ConnectionType::Bluetooth,
        ) => {
            let mut buf = zeroed(74);
            buf.set(0, 0x31);
            buf.set(1, 0x02);
            buf.set(2, 0xFF);
            buf.set(3, 0xF7);
            buf.set(4, weak);
            buf.set(5, strong);
            buf.set(46, led[0]);
            buf.set(47, led[1]);
            buf.set(48, led[2]);
            proof {
                assert(buf@ =~= dualsense_bt_body(led, weak, strong));
            }
            append_bt_crc(&mut buf);
            Some(buf)
        },
        _ => None,
    }
}


/// Output reports exist exactly for pads with a lightbar, and each has the
/// report id, length, lightbar bytes and (over Bluetooth) trailing CRC-32 of
/// its transport.
pub proof fn lemma_output_report_shape(
    kind: PadKind,
    connection: ConnectionType,
    led: [u8; 3],
    weak: u8,
    strong: u8,
)
    ensures
        spec_output_report(kind, connection, led, weak, strong) is Some <==> kind.spec_has_lightbar(),
        spec_output_report(kind, connection, led, weak, strong) matches Some(r) ==> {
            let ds4 = kind == PadKind::DualShock4;
            let led_at: int = if ds4 {
                if connection == ConnectionType::Usb { 6 } else { 8 }
            } else {
                if connection == ConnectionType::Usb { 45 } else { 46 }
            };
            &&& connection == ConnectionType::Usb ==> r.len() == (if ds4 { 32int } else { 48int })
            &&& connection == ConnectionType::Usb ==> r[0] == (if ds4 { 0x05u8 } else { 0x02u8 })
            &&& connection == ConnectionType::Bluetooth ==> r.len() == 78
            &&& connection == ConnectionType::Bluetooth ==> r[0] == (if ds4 { 0x11u8 } else { 0x31u8 })
            &&& connection == ConnectionType::Bluetooth ==> r.subrange(74, 78) == le_bytes_u32(
                spec_crc32(seq![0xA2u8] + r.subrange(0, 74)),
            )
            &&& r[led_at] == led[0] && r[led_at + 1] == led[1] && r[led_at + 2] == led[2]
        },
{
    match spec_output_report(kind, connection, led, weak, strong) {
        Some(r) => {
            if connection == ConnectionType::Bluetooth {
                let body = if kind == PadKind::DualShock4 {
                    ds4_bt_body(led, weak, strong)
                } else {
                    dualsense_bt_body(led, weak, strong)
                };
                assert(r == with_bt_crc(body));
                assert(r.subrange(0, 74) =~= body);
                assert(r.subrange(74, 78) =~= le_bytes_u32(spec_crc32(seq![0xA2u8] + body)));
            }
        },
        None => {},
    }
}


/// Every byte of the output reports (before the Bluetooth CRC-32), with
/// the enable flags that make the pad take the colour and the rumble:
/// - DualShock 4 over USB: `05 F7 00 00 weak strong r g b 00 ...`;
/// - DualShock 4 over Bluetooth: `11 C0 20 F7 00 00 weak strong r g b 00 ...`;
/// - DualSense over USB: `02 FF F7 weak strong 00 ...`, colour at 45..48;
/// - DualSense over Bluetooth: `31 02 FF F7 weak strong 00 ...`, colour at
///   46..49.
pub proof fn lemma_output_report_bytes(
    kind: PadKind,
    connection: ConnectionType,
    led: [u8; 3],
    weak: u8,
    strong: u8,
)
    ensures
        spec_output_report(kind, connection, led, weak, strong) matches Some(r) ==> {
            let ds4 = kind == PadKind::DualShock4;
            let usb = connection == ConnectionType::Usb;
            &&& ds4 && usb ==> r[0] == 0x05u8 && r[1] == 0xF7u8 && r[4] == weak && r[5] == strong
                && r[6] == led[0] && r[7] == led[1] && r[8] == led[2]
                && (forall|i: int| (2 <= i < 4 || 9 <= i < 32) ==> r[i] == 0u8)
            &&& ds4 && !usb ==> r[0] == 0x11u8 && r[1] == 0xC0u8 && r[2] == 0x20u8 && r[3] == 0xF7u8
                && r[6] == weak && r[7] == strong && r[8] == led[0] && r[9] == led[1] && r[10] == led[2]
                && (forall|i: int| (4 <= i < 6 || 11 <= i < 74) ==> r[i] == 0u8)
            &&& !ds4 && usb ==> r[0] == 0x02u8 && r[1] == 0xFFu8 && r[2] == 0xF7u8 && r[3] == weak
                && r[4] == strong && r[45] == led[0] && r[46] == led[1] && r[47] == led[2]
                && (forall|i: int| 5 <= i < 45 ==> r[i] == 0u8)
            &&& !ds4 && !usb ==> r[0] == 0x31u8 && r[1] == 0x02u8 && r[2] == 0xFFu8 && r[3] == 0xF7u8
                && r[4] == weak && r[5] == strong && r[46] == led[0] && r[47] == led[1] && r[48] == led[2]
                && (forall|i: int| (6 <= i < 46 || 49 <= i < 74) ==> r[i] == 0u8)
        },
{
    match spec_output_report(kind, connection, led, weak, strong) {
        Some(r) => {
            if connection == ConnectionType::Bluetooth {
                let body = if kind == PadKind::DualShock4 {
                    ds4_bt_body(led, weak, strong)
                } else {
                    dualsense_bt_body(led, weak, strong)
                };
                assert(r == with_bt_crc(body));
                assert forall|i: int| 0 <= i < 74 implies r[i] == body[i] by {}
            }
        },
        None => {},
    }
}

} // verus!
