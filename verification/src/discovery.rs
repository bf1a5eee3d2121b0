use vstd::prelude::*;
use vstd::hash_map::StringHashMap;
use crate::hidhide::{find_seq, find_seq_exec};
use crate::pad::{kind_of_ids, spec_label, ConnectionType, PadKind};
use crate::strmap::StrMap;
use crate::text::{chars_of, string_of, to_lowercase, lower_case};

verus! {

// ---------------------------------------------------------------------------
// Device records and pad descriptions
// ---------------------------------------------------------------------------

/// What discovery reads of one HID collection the bus reports.
#[derive(Debug, Clone)]
pub struct HidDeviceRecord {
    pub vendor_id: u16,
    pub product_id: u16,
    pub usage_page: u16,
    pub usage: u16,
    /// `-1` when the collection has no USB interface (Bluetooth).
    pub interface_number: i32,
    pub path: String,
    pub serial_number: Option<String>,
    pub product_string: Option<String>,
}

/// The characters of a device record.
pub struct DeviceRecordView {
    pub vendor_id: u16,
    pub product_id: u16,
    pub usage_page: u16,
    pub usage: u16,
    pub interface_number: i32,
    pub path: Seq<char>,
    pub serial_number: Option<Seq<char>>,
    pub product_string: Option<Seq<char>>,
}

/// The characters of an optional string.
pub open spec fn opt_chars(o: Option<String>) -> Option<Seq<char>> {
    match o {
        Some(s) => Some(s@),
        None => None,
    }
}

impl View for HidDeviceRecord {
    type V = DeviceRecordView;

    open spec fn view(&self) -> DeviceRecordView {
        DeviceRecordView {
            vendor_id: self.vendor_id,
            product_id: self.product_id,
            usage_page: self.usage_page,
            usage: self.usage,
            interface_number: self.interface_number,
            path: self.path@,
            serial_number: opt_chars(self.serial_number),
            product_string: opt_chars(self.product_string),
        }
    }
}

/// One attached pad, as shown to the user.
#[derive(Debug, Clone)]
pub struct GamepadInfo {
    pub id: String,
    pub name: String,
    pub kind: PadKind,
    pub connection: ConnectionType,
    /// 0..=100, `-1` when the pad does not report a battery gauge.
    pub battery: i16,
    pub charging: bool,
    pub led: [u8; 3],
    pub vendor_id: u16,
    pub product_id: u16,
    pub serial: String,
    pub path: String,
    pub has_lightbar: bool,
    pub has_gyro: bool,
    pub has_touchpad: bool,
    pub report_rate_hz: u32,
}

/// The characters of a pad description.
pub struct GamepadInfoView {
    pub id: Seq<char>,
    pub name: Seq<char>,
    pub kind: PadKind,
    pub connection: ConnectionType,
    pub battery: i16,
    pub charging: bool,
    pub led: [u8; 3],
    pub vendor_id: u16,
    pub product_id: u16,
    pub serial: Seq<char>,
    pub path: Seq<char>,
    pub has_lightbar: bool,
    pub has_gyro: bool,
    pub has_touchpad: bool,
    pub report_rate_hz: u32,
}

impl View for GamepadInfo {
    type V = GamepadInfoView;

    open spec fn view(&self) -> GamepadInfoView {
        GamepadInfoView {
            id: self.id@,
            name: self.name@,
            kind: self.kind,
            connection: self.connection,
            battery: self.battery,
            charging: self.charging,
            led: self.led,
            vendor_id: self.vendor_id,
            product_id: self.product_id,
            serial: self.serial@,
            path: self.path@,
            has_lightbar: self.has_lightbar,
            has_gyro: self.has_gyro,
            has_touchpad: self.has_touchpad,
            report_rate_hz: self.report_rate_hz,
        }
    }
}

pub open spec fn record_views(s: Seq<HidDeviceRecord>) -> Seq<DeviceRecordView> {
    s.map_values(|r: HidDeviceRecord| r@)
}

pub open spec fn info_views(s: Seq<GamepadInfo>) -> Seq<GamepadInfoView> {
    s.map_values(|g: GamepadInfo| g@)
}

// ---------------------------------------------------------------------------
// Identifiers
// ---------------------------------------------------------------------------

/// Lower-case hexadecimal digit of `d < 16`.
pub open spec fn hex_digit(d: int) -> char {
    if d < 10 {
        (48 + d) as char
    } else {
        (87 + d) as char
    }
}

/// `{:04x}` of a `u16`: always four lower-case hex digits.
pub open spec fn hex4(v: u16) -> Seq<char> {
    seq![
        hex_digit(v as int / 4096),
        hex_digit((v as int / 256) % 16),
        hex_digit((v as int / 16) % 16),
        hex_digit(v as int % 16),
    ]
}

/// Decimal digits of `n`, without leading zeros.
pub open spec fn decimal(n: nat) -> Seq<char>
    decreases n,
{
    if n < 10 {
        seq![(48 + n) as char]
    } else {
        decimal(n / 10).push((48 + n % 10) as char)
    }
}

/// `vid:pid:serial` in lower-case hex, or `vid:pid:#index` when the pad
/// reports no (or an empty) serial number.
pub open spec fn spec_stable_id(vid: u16, pid: u16, serial: Option<Seq<char>>, index: nat) -> Seq<char> {
    let tail = if serial is Some && serial->0.len() > 0 {
        serial->0
    } else {
        seq!['#'] + decimal(index)
    };
    hex4(vid) + seq![':'] + hex4(pid) + seq![':'] + tail
}

fn hex_char(d: u16) -> (c: char)
    requires
        d < 16,
    ensures
        c == hex_digit(d as int),
{
    if d < 10 {
        ((48 + d) as u8) as char
    } else {
        ((87 + d) as u8) as char
    }
}

fn push_hex4(out: &mut Vec<char>, v: u16)
    ensures
        final(out)@ == old(out)@ + hex4(v),
{
    out.push(hex_char(v / 4096));
    out.push(hex_char((v / 256) % 16));
    out.push(hex_char((v / 16) % 16));
    out.push(hex_char(v % 16));
    proof {
        assert(final(out)@ =~= old(out)@ + hex4(v));
    }
}

pub fn push_decimal(out: &mut Vec<char>, n: usize)
    ensures
        final(out)@ == old(out)@ + decimal(n as nat),
    decreases n,
{
    if n >= 10 {
        push_decimal(out, n / 10);
    }
    let d = (n % 10) as u8;
    out.push((48 + d) as char);
    proof {
        assert(final(out)@ =~= old(out)@ + decimal(n as nat));
    }
}

pub fn push_chars(out: &mut Vec<char>, s: &[char])
    ensures
        final(out)@ == old(out)@ + s@,
{
    let mut i: usize = 0;
    while i < s.len()
        invariant
            i <= s@.len(),
            out@ == old(out)@ + s@.subrange(0, i as int),
        decreases s@.len() - i,
    {
        out.push(s[i]);
        i = i + 1;
        proof {
            assert(out@ =~= old(out)@ + s@.subrange(0, i as int));
        }
    }
    proof {
        assert(s@.subrange(0, s@.len() as int) =~= s@);
    }
}

/// The stable id of the `index`-th record on the bus.
pub fn stable_id(rec: &HidDeviceRecord, index: usize) -> (id: String)
    ensures
        id@ == spec_stable_id(rec.vendor_id, rec.product_id, opt_chars(rec.serial_number), index as nat),
{
    let mut v: Vec<char> = Vec::new();
    push_hex4(&mut v, rec.vendor_id);
    v.push(':');
    push_hex4(&mut v, rec.product_id);
    v.push(':');
    let ghost head = v@;
    let mut tagged = true;
    match &rec.serial_number {
        Some(sn) => {
            let c = chars_of(sn.as_str());
            if c.len() > 0 {
                push_chars(&mut v, c.as_slice());
                tagged = false;
            }
        },
        None => {},
    }
    if tagged {
        v.push('#');
        push_decimal(&mut v, index);
    }
    proof {
        let tail = if rec@.serial_number is Some && rec@.serial_number->0.len() > 0 {
            rec@.serial_number->0
        } else {
            seq!['#'] + decimal(index as nat)
        };
        assert(head =~= hex4(rec.vendor_id) + seq![':'] + hex4(rec.product_id) + seq![':']);
        assert(v@ =~= head + tail);
    }
    string_of(v.as_slice())
}

// ---------------------------------------------------------------------------
// Transport and collection filters
// ---------------------------------------------------------------------------

/// `bthenum`, the Bluetooth enumerator's name in a device path.
pub open spec fn bthenum() -> Seq<char> {
    seq!['b', 't', 'h', 'e', 'n', 'u', 'm']
}

/// Bluetooth when the collection has no USB interface or its lower-cased
/// path names the Bluetooth enumerator; USB otherwise.
pub open spec fn spec_connection_of(interface_number: i32, path: Seq<char>) -> ConnectionType {
    if interface_number == -1 || find_seq(lower_case(path), bthenum()) != -1 {
        ConnectionType::Bluetooth
    } else {
        ConnectionType::Usb
    }
}

/// The transport a HID collection is reached over.
pub fn connection_of(interface_number: i32, path: &str) -> (c: ConnectionType)
    ensures
        c == spec_connection_of(interface_number, path@),
{
    if interface_number == -1 {
        return ConnectionType::Bluetooth;
    }
    let lower = to_lowercase(path);
    let lc = chars_of(lower.as_str());
    let pat: Vec<char> = vec!['b', 't', 'h', 'e', 'n', 'u', 'm'];
    proof {
        assert(pat@ =~= bthenum());
    }
    match find_seq_exec(lc.as_slice(), pat.as_slice()) {
        Some(_) => ConnectionType::Bluetooth,
        None => ConnectionType::Usb,
    }
}

/// The gamepad / joystick collection of a pad (usage page 0x01, usage 0x05
/// or 0x04), or a collection with no usage page at all.
pub open spec fn is_input_collection(usage_page: u16, usage: u16) -> bool {
    usage_page == 0 || (usage_page == 0x01 && (usage == 0x05 || usage == 0x04))
}

/// A gamepad (usage 0x05) or joystick (usage 0x04) collection of the
/// generic desktop page (0x01).
pub open spec fn is_gamepad_collection(usage_page: u16, usage: u16) -> bool {
    usage_page == 0x01 && (usage == 0x05 || usage == 0x04)
}

/// Microsoft's vendor id: its gamepads are XInput controllers.
pub const VID_MICROSOFT: u16 = 0x045E;

/// The family a listed pad is shown as: a known Sony pad by its ids, any
/// other Microsoft gamepad as an XInput controller, anything else as a
/// generic HID pad.
pub open spec fn listed_kind(vid: u16, pid: u16) -> PadKind {
    let k = kind_of_ids(vid, pid);
    if k == PadKind::Generic && vid == VID_MICROSOFT {
        PadKind::XInput
    } else {
        k
    }
}

fn listed_kind_exec(vid: u16, pid: u16) -> (k: PadKind)
    ensures
        k == listed_kind(vid, pid),
{
    let k = PadKind::from_ids(vid, pid);
    if k == PadKind::Generic && vid == VID_MICROSOFT {
        PadKind::XInput
    } else {
        k
    }
}

/// A record discovery keeps: a known Sony pad on its input collection (its
/// gamepad or joystick collection, or one with no usage page), or the
/// gamepad or joystick collection of a Microsoft (XInput) pad. Pads of any
/// other vendor are not supported and never kept.
pub open spec fn accepted(r: DeviceRecordView) -> bool {
    if kind_of_ids(r.vendor_id, r.product_id) != PadKind::Generic {
        is_input_collection(r.usage_page, r.usage)
    } else if r.vendor_id == VID_MICROSOFT {
        is_gamepad_collection(r.usage_page, r.usage)
    } else {
        false
    }
}

// ---------------------------------------------------------------------------
// Enumeration
// ---------------------------------------------------------------------------

/// The lightbar colour a pad starts with when none was set before.
pub open spec fn default_led(kind: PadKind) -> [u8; 3] {
    if kind == PadKind::DualShock4 {
        [0u8, 40u8, 255u8]
    } else {
        [0u8, 140u8, 255u8]
    }
}

/// Reports per second of a transport.
pub open spec fn report_rate(c: ConnectionType) -> u32 {
    match c {
        ConnectionType::Usb => 1000,
        ConnectionType::Bluetooth => 800,
    }
}

/// The description of the `index`-th record, with its lightbar colour taken
/// from `cache` when the pad's id has an entry there.
pub open spec fn pad_info(r: DeviceRecordView, index: nat, cache: Map<Seq<char>, [u8; 3]>) -> GamepadInfoView {
    let kind = listed_kind(r.vendor_id, r.product_id);
    let id = spec_stable_id(r.vendor_id, r.product_id, r.serial_number, index);
    let connection = spec_connection_of(r.interface_number, r.path);
    GamepadInfoView {
        id,
        name: match r.product_string {
            Some(p) => p,
            None => spec_label(kind),
        },
        kind,
        connection,
        battery: -1i16,
        charging: connection == ConnectionType::Usb,
        led: if cache.contains_key(id) {
            cache[id]
        } else {
            default_led(kind)
        },
        vendor_id: r.vendor_id,
        product_id: r.product_id,
        serial: match r.serial_number {
            Some(s) => s,
            None => Seq::empty(),
        },
        path: r.path,
        has_lightbar: kind.spec_has_lightbar(),
        has_gyro: true,
        has_touchpad: true,
        report_rate_hz: report_rate(connection),
    }
}

/// The paths of a list of pads.
pub open spec fn pad_paths(s: Seq<GamepadInfoView>) -> Seq<Seq<char>> {
    s.map_values(|g: GamepadInfoView| g.path)
}

/// Enumeration of the first `n` records: each accepted record whose path
/// was not listed before is appended.
pub open spec fn enumerate_prefix(
    recs: Seq<DeviceRecordView>,
    cache: Map<Seq<char>, [u8; 3]>,
    n: nat,
) -> Seq<GamepadInfoView>
    decreases n,
{
    if n == 0 {
        Seq::empty()
    } else {
        let prev = enumerate_prefix(recs, cache, (n - 1) as nat);
        let r = recs[n - 1];
        if accepted(r) && !pad_paths(prev).contains(r.path) {
            prev.push(pad_info(r, (n - 1) as nat, cache))
        } else {
            prev
        }
    }
}

/// Every pad among `recs` (see `accepted`), in bus order, once per path.
pub open spec fn spec_enumerate(recs: Seq<DeviceRecordView>, cache: Map<Seq<char>, [u8; 3]>) -> Seq<
    GamepadInfoView,
> {
    enumerate_prefix(recs, cache, recs.len())
}

fn copy_string(s: &String) -> (r: String)
    ensures
        r@ == s@,
{
    s.clone()
}

fn build_info(rec: &HidDeviceRecord, index: usize, cache: &StrMap<[u8; 3]>) -> (g: GamepadInfo)
    ensures
        g@ == pad_info(rec@, index as nat, cache@),
{
    let kind = listed_kind_exec(rec.vendor_id, rec.product_id);
    let id = stable_id(rec, index);
    let connection = connection_of(rec.interface_number, rec.path.as_str());
    let led: [u8; 3] = match cache.get(id.as_str()) {
        Some(c) => *c,
        None => {
            if kind == PadKind::DualShock4 {
                [0u8, 40u8, 255u8]
            } else {
                [0u8, 140u8, 255u8]
            }
        },
    };
    let name = match &rec.product_string {
        Some(p) => copy_string(p),
        None => kind.label().to_owned(),
    };
    let serial = match &rec.serial_number {
        Some(s) => copy_string(s),
        None => String::new(),
    };
    let charging = match connection {
        ConnectionType::Usb => true,
        ConnectionType::Bluetooth => false,
    };
    let report_rate_hz: u32 = match connection {
        ConnectionType::Usb => 1000,
        ConnectionType::Bluetooth => 800,
    };
    let g = GamepadInfo {
        id,
        name,
        kind,
        connection,
        battery: -1,
        charging,
        led,
        vendor_id: rec.vendor_id,
        product_id: rec.product_id,
        serial,
        path: copy_string(&rec.path),
        has_lightbar: kind.has_lightbar(),
        has_gyro: true,
        has_touchpad: true,
        report_rate_hz,
    };
    proof {
        assert(g@.serial =~= pad_info(rec@, index as nat, cache@).serial);
    }
    g
}

/// Enumerates every connected supported pad among the HID collections on the
/// bus, in bus order, once per device path: DualShock 4 / DualSense pads on
/// their input collection, and Microsoft gamepads on their gamepad or
/// joystick collection, shown as XInput controllers. No generic HID pad is
/// listed. The lightbar colour comes from `cache` (keyed by pad id), else
/// the family's default.
pub fn enumerate(devices: &[HidDeviceRecord], cache: &StrMap<[u8; 3]>) -> (out: Vec<GamepadInfo>)
    ensures
        info_views(out@) == spec_enumerate(record_views(devices@), cache@),
        forall|k: int| 0 <= k < out@.len() ==> (#[trigger] out@[k]).kind != PadKind::Generic,
{
    let ghost recs = record_views(devices@);
    let mut out: Vec<GamepadInfo> = Vec::new();
    let mut seen: StringHashMap<bool> = StringHashMap::new();
    let mut idx: usize = 0;
    while idx < devices.len()
        invariant
            idx <= devices@.len(),
            recs == record_views(devices@),
            info_views(out@) == enumerate_prefix(recs, cache@, idx as nat),
            forall|p: Seq<char>| #[trigger] seen@.contains_key(p) <==> pad_paths(info_views(out@)).contains(p),
        decreases devices@.len() - idx,
    {
        let rec = &devices[idx];
        let ghost prev = info_views(out@);
        assert(recs[idx as int] == rec@);
        let kind = PadKind::from_ids(rec.vendor_id, rec.product_id);
        let gamepad = rec.usage_page == 0x01 && (rec.usage == 0x05 || rec.usage == 0x04);
        let collection_ok = if kind != PadKind::Generic {
            rec.usage_page == 0 || gamepad
        } else if rec.vendor_id == VID_MICROSOFT {
            gamepad
        } else {
            false
        };
        if collection_ok && !seen.contains_key(rec.path.as_str()) {
            seen.insert(copy_string(&rec.path), true);
            let info = build_info(rec, idx, cache);
            out.push(info);
            proof {
                assert(info_views(out@) =~= prev.push(info@));
                assert(pad_paths(prev.push(info@)) =~= pad_paths(prev).push(rec@.path));
                assert forall|p: Seq<char>| #[trigger] seen@.contains_key(p) <==> pad_paths(
                    info_views(out@),
                ).contains(p) by {
                    if p == rec@.path {
                        assert(pad_paths(info_views(out@))[prev.len() as int] == p);
                    } else if pad_paths(prev).contains(p) {
                        let j = choose|j: int| 0 <= j < pad_paths(prev).len() && pad_paths(prev)[j] == p;
                        assert(pad_paths(info_views(out@))[j] == p);
                    } else if pad_paths(info_views(out@)).contains(p) {
                        let j = choose|j: int|
                            0 <= j < pad_paths(info_views(out@)).len() && pad_paths(info_views(out@))[j] == p;
                        if j < prev.len() {
                            assert(pad_paths(prev)[j] == p);
                        }
                    }
                }
            }
        }
        idx = idx + 1;
    }
    proof {
        assert(recs.len() == devices@.len());
        lemma_enumerate_pads(recs, cache@);
        assert forall|k: int| 0 <= k < out@.len() implies (#[trigger] out@[k]).kind != PadKind::Generic by {
            assert(info_views(out@)[k] == out@[k]@);
            assert(spec_enumerate(recs, cache@)[k].kind != PadKind::Generic);
        }
    }
    out
}


/// An input collection of the same vendor and product as `target`.
pub open spec fn same_pad_collection(r: DeviceRecordView, target: GamepadInfoView) -> bool {
    r.vendor_id == target.vendor_id && r.product_id == target.product_id && is_input_collection(r.usage_page, r.usage)
}

/// Index of the record to open a listed pad through, if any.
pub fn record_for(records: &[HidDeviceRecord], target: &GamepadInfo) -> (r: Option<usize>)
    ensures
        match r {
            Some(i) => {
                &&& i < records@.len()
                &&& (records@[i as int].path@ == target.path@ && forall|j: int| 0 <= j < i ==> (#[trigger] records@[j]).path@ != target.path@)
                    || ((forall|j: int| 0 <= j < records@.len() ==> (#[trigger] records@[j]).path@ != target.path@)
                        && same_pad_collection(records@[i as int]@, target@)
                        && forall|j: int| 0 <= j < i ==> !same_pad_collection((#[trigger] records@[j])@, target@))
            },
            None => forall|j: int| 0 <= j < records@.len() ==> (#[trigger] records@[j]).path@ != target.path@
                && !same_pad_collection(records@[j]@, target@),
        },
{
    let mut i: usize = 0;
    while i < records.len()
        invariant
            i <= records@.len(),
            forall|j: int| 0 <= j < i ==> (#[trigger] records@[j]).path@ != target.path@,
        decreases records@.len() - i,
    {
        if records[i].path == target.path {
            return Some(i);
        }
        i = i + 1;
    }
    let mut k: usize = 0;
    while k < records.len()
        invariant
            k <= records@.len(),
            forall|j: int| 0 <= j < records@.len() ==> (#[trigger] records@[j]).path@ != target.path@,
            forall|j: int| 0 <= j < k ==> !same_pad_collection((#[trigger] records@[j])@, target@),
        decreases records@.len() - k,
    {
        let r = &records[k];
        if r.vendor_id == target.vendor_id && r.product_id == target.product_id && (r.usage_page == 0 || (
        r.usage_page == 0x01 && (r.usage == 0x05 || r.usage == 0x04))) {
            return Some(k);
        }
        k = k + 1;
    }
    None
}

// ---------------------------------------------------------------------------
// Laws
// ---------------------------------------------------------------------------

/// Every pad listed by the enumeration of the first `n` records is the
/// description of one accepted record among them.
pub proof fn lemma_enumerate_members(recs: Seq<DeviceRecordView>, cache: Map<Seq<char>, [u8; 3]>, n: nat)
    requires
        n <= recs.len(),
    ensures
        forall|k: int|
            0 <= k < enumerate_prefix(recs, cache, n).len() ==> exists|i: int|
                0 <= i < n && accepted(recs[i]) && #[trigger] enumerate_prefix(recs, cache, n)[k] == pad_info(
                    recs[i],
                    i as nat,
                    cache,
                ),
    decreases n,
{
    if n > 0 {
        lemma_enumerate_members(recs, cache, (n - 1) as nat);
        let prev = enumerate_prefix(recs, cache, (n - 1) as nat);
        let cur = enumerate_prefix(recs, cache, n);
        assert forall|k: int| 0 <= k < cur.len() implies exists|i: int|
            0 <= i < n && accepted(recs[i]) && #[trigger] cur[k] == pad_info(recs[i], i as nat, cache) by {
            if k < prev.len() {
                assert(cur[k] == prev[k]);
                let i = choose|i: int| 0 <= i < n - 1 && accepted(recs[i]) && prev[k] == pad_info(recs[i], i as nat, cache);
            } else {
                assert(cur[k] == pad_info(recs[n - 1], (n - 1) as nat, cache));
            }
        }
    }
}

/// Enumeration lists each device path at most once.
pub proof fn lemma_enumerate_paths_distinct(recs: Seq<DeviceRecordView>, cache: Map<Seq<char>, [u8; 3]>, n: nat)
    requires
        n <= recs.len(),
    ensures
        forall|a: int, b: int|
            0 <= a < b < enumerate_prefix(recs, cache, n).len() ==> (#[trigger] enumerate_prefix(
                recs,
                cache,
                n,
            )[a]).path != (#[trigger] enumerate_prefix(recs, cache, n)[b]).path,
    decreases n,
{
    if n > 0 {
        lemma_enumerate_paths_distinct(recs, cache, (n - 1) as nat);
        let prev = enumerate_prefix(recs, cache, (n - 1) as nat);
        let cur = enumerate_prefix(recs, cache, n);
        assert forall|a: int, b: int| 0 <= a < b < cur.len() implies (#[trigger] cur[a]).path != (
        #[trigger] cur[b]).path by {
            assert(cur[a] == prev[a]);
            if b < prev.len() {
                assert(cur[b] == prev[b]);
            } else {
                assert(pad_paths(prev)[a] == prev[a].path);
            }
        }
    }
}

/// What enumeration promises of every pad it lists: its family by its ids
/// (Sony families, XInput for other Microsoft pads) and never generic, a
/// lightbar colour from the cache when its id has one (else its family's
/// default), an unknown battery, charging exactly over USB, a lightbar
/// exactly for Sony pads, and no two pads on one path.
pub proof fn lemma_enumerate_pads(recs: Seq<DeviceRecordView>, cache: Map<Seq<char>, [u8; 3]>)
    ensures
        forall|k: int|
            0 <= k < spec_enumerate(recs, cache).len() ==> {
                let g = #[trigger] spec_enumerate(recs, cache)[k];
                &&& g.kind == listed_kind(g.vendor_id, g.product_id)
                &&& g.kind != PadKind::Generic
                &&& g.led == (if cache.contains_key(g.id) {
                    cache[g.id]
                } else {
                    default_led(g.kind)
                })
                &&& g.battery == -1
                &&& g.charging == (g.connection == ConnectionType::Usb)
                &&& g.has_lightbar == g.kind.spec_has_lightbar()
            },
        forall|a: int, b: int|
            0 <= a < b < spec_enumerate(recs, cache).len() ==> (#[trigger] spec_enumerate(recs, cache)[a]).path
                != (#[trigger] spec_enumerate(recs, cache)[b]).path,
{
    lemma_enumerate_members(recs, cache, recs.len());
    lemma_enumerate_paths_distinct(recs, cache, recs.len());
    assert forall|k: int| 0 <= k < spec_enumerate(recs, cache).len() implies {
        let g = #[trigger] spec_enumerate(recs, cache)[k];
        &&& g.kind == listed_kind(g.vendor_id, g.product_id)
        &&& g.kind != PadKind::Generic
        &&& g.led == (if cache.contains_key(g.id) {
            cache[g.id]
        } else {
            default_led(g.kind)
        })
        &&& g.battery == -1
        &&& g.charging == (g.connection == ConnectionType::Usb)
        &&& g.has_lightbar == g.kind.spec_has_lightbar()
    } by {
        let g = spec_enumerate(recs, cache)[k];
        let i = choose|i: int|
            0 <= i < recs.len() && accepted(recs[i]) && spec_enumerate(recs, cache)[k] == pad_info(
                recs[i],
                i as nat,
                cache,
            );
    }
}


/// A pad that reports a serial number keeps its id wherever it sits on the
/// bus; without one, its id names its bus position.
pub proof fn lemma_stable_id_position(vid: u16, pid: u16, serial: Option<Seq<char>>, i: nat, j: nat)
    ensures
        serial is Some && serial->0.len() > 0 ==> spec_stable_id(vid, pid, serial, i) == spec_stable_id(
            vid,
            pid,
            serial,
            j,
        ),
        !(serial is Some && serial->0.len() > 0) ==> spec_stable_id(vid, pid, serial, i) == hex4(vid) + seq![':']
            + hex4(pid) + seq![':', '#'] + decimal(i),
{
    if !(serial is Some && serial->0.len() > 0) {
        assert(spec_stable_id(vid, pid, serial, i) =~= hex4(vid) + seq![':'] + hex4(pid) + seq![':', '#'] + decimal(i));
    }
}


/// Only supported pads are kept: a kept record is never a generic HID pad.
/// The gamepad or joystick collection of a known Sony pad or of any
/// Microsoft pad is kept; a collection without a usage page is kept only
/// for a known Sony pad.
pub proof fn lemma_gamepads_accepted(r: DeviceRecordView)
    ensures
        accepted(r) ==> listed_kind(r.vendor_id, r.product_id) != PadKind::Generic,
        is_gamepad_collection(r.usage_page, r.usage) ==> (accepted(r) <==> (kind_of_ids(
            r.vendor_id,
            r.product_id,
        ) != PadKind::Generic || r.vendor_id == VID_MICROSOFT)),
        r.usage_page == 0 ==> (accepted(r) <==> kind_of_ids(r.vendor_id, r.product_id) != PadKind::Generic),
{
}

} // verus!
