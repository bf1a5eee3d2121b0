use vstd::prelude::*;
use crate::buttons::{L1, R1};
use crate::discovery::{info_views, GamepadInfo, GamepadInfoView};
use crate::engine::MAX_PADS;

verus! {

// ---------------------------------------------------------------------------
// Flip-triggers mode
// ---------------------------------------------------------------------------

/// Flip-triggers mode on the button mask: the bumper bits L1 / R1 report
/// whether L2 / R2 are pulled past the threshold; every other bit is kept.
pub open spec fn spec_flip_bumpers(mask: u32, l2_pulled: bool, r2_pulled: bool) -> u32 {
    (mask & !(L1 | R1)) | (if l2_pulled {
        L1
    } else {
        0u32
    }) | (if r2_pulled {
        R1
    } else {
        0u32
    })
}

/// The button mask in flip-triggers mode (the triggers themselves take the
/// bumpers' on / off state, which the caller reads from the unflipped mask).
pub fn flip_bumpers(mask: u32, l2_pulled: bool, r2_pulled: bool) -> (m: u32)
    ensures
        m == spec_flip_bumpers(mask, l2_pulled, r2_pulled),
        (m & L1 != 0) == l2_pulled,
        (m & R1 != 0) == r2_pulled,
        m & !(L1 | R1) == mask & !(L1 | R1),
{
    let l2_bit: u32 = if l2_pulled {
        L1
    } else {
        0
    };
    let r2_bit: u32 = if r2_pulled {
        R1
    } else {
        0
    };
    let m = (mask & !(L1 | R1)) | l2_bit | r2_bit;
    assert((m & 16 != 0) == (l2_bit == 16) && (m & 32 != 0) == (r2_bit == 32) && m & !(16u32 | 32u32) == mask
        & !(16u32 | 32u32)) by (bit_vector)
        requires
            m == (mask & !(16u32 | 32u32)) | l2_bit | r2_bit,
            l2_bit == 0 || l2_bit == 16,
            r2_bit == 0 || r2_bit == 32,
    ;
    m
}

// ---------------------------------------------------------------------------
// Lightbar and rumble writes
// ---------------------------------------------------------------------------

/// The battery-gauge colour: green above 60 %, amber above 25 %, red below.
pub open spec fn spec_battery_led_colour(battery: i16) -> [u8; 3] {
    if battery > 60 {
        [0u8, 230u8, 80u8]
    } else if battery > 25 {
        [240u8, 180u8, 0u8]
    } else {
        [255u8, 30u8, 20u8]
    }
}

pub fn battery_led_colour(battery: i16) -> (c: [u8; 3])
    ensures
        c == spec_battery_led_colour(battery),
{
    if battery > 60 {
        [0, 230, 80]
    } else if battery > 25 {
        [240, 180, 0]
    } else {
        [255, 30, 20]
    }
}

/// The colour a pad should show: its battery gauge in battery mode (when
/// the pad reports a battery level), else the colour waiting for it, else
/// the one it has.
pub open spec fn spec_target_led(
    battery_led_mode: bool,
    battery: i16,
    pending: Option<[u8; 3]>,
    current: [u8; 3],
) -> [u8; 3] {
    if battery_led_mode && battery >= 0 {
        spec_battery_led_colour(battery)
    } else {
        match pending {
            Some(c) => c,
            None => current,
        }
    }
}

pub fn target_led(battery_led_mode: bool, battery: i16, pending: Option<[u8; 3]>, current: [u8; 3]) -> (c: [u8; 3])
    ensures
        c == spec_target_led(battery_led_mode, battery, pending, current),
{
    if battery_led_mode && battery >= 0 {
        battery_led_colour(battery)
    } else {
        match pending {
            Some(c) => c,
            None => current,
        }
    }
}

/// An output report is written when a colour or a rumble is waiting, or
/// when battery mode wants a colour other than the one shown.
pub open spec fn spec_output_write_due(
    pending_led: bool,
    pending_rumble: bool,
    battery_led_mode: bool,
    target: [u8; 3],
    current: [u8; 3],
) -> bool {
    pending_led || pending_rumble || (battery_led_mode && (target[0] != current[0] || target[1] != current[1]
        || target[2] != current[2]))
}

pub fn output_write_due(
    pending_led: bool,
    pending_rumble: bool,
    battery_led_mode: bool,
    target: [u8; 3],
    current: [u8; 3],
) -> (r: bool)
    ensures
        r == spec_output_write_due(pending_led, pending_rumble, battery_led_mode, target, current),
{
    pending_led || pending_rumble || (battery_led_mode && (target[0] != current[0] || target[1] != current[1]
        || target[2] != current[2]))
}

// ---------------------------------------------------------------------------
// UI snapshot
// ---------------------------------------------------------------------------

/// Within one pass over the pads, a pad's snapshot becomes the UI snapshot
/// when it is the active pad, or when no snapshot was taken for the UI yet.
pub open spec fn spec_ui_snapshot_due(active: Option<Seq<char>>, pad_id: Seq<char>, have_ui_snapshot: bool) -> bool {
    active == Some(pad_id) || !have_ui_snapshot
}

pub fn ui_snapshot_due(active: Option<&str>, pad_id: &str, have_ui_snapshot: bool) -> (r: bool)
    ensures
        r == spec_ui_snapshot_due(
            match active {
                Some(a) => Some(a@),
                None => None,
            },
            pad_id@,
            have_ui_snapshot,
        ),
{
    let is_active = match active {
        Some(a) => a.to_owned() == pad_id.to_owned(),
        None => false,
    };
    is_active || !have_ui_snapshot
}

// ---------------------------------------------------------------------------
// Virtual pad slots
// ---------------------------------------------------------------------------

/// The empty virtual pad slots among the first `n` that have a pad to
/// drive (`open_pads` pads are open), in slot order.
pub open spec fn slots_to_fill(filled: Seq<bool>, open_pads: nat, n: nat) -> Seq<usize>
    decreases n,
{
    if n == 0 {
        Seq::empty()
    } else {
        let prev = slots_to_fill(filled, open_pads, (n - 1) as nat);
        if n - 1 < open_pads && !filled[n - 1] {
            prev.push((n - 1) as usize)
        } else {
            prev
        }
    }
}

/// The slots a virtual pad should be created for.
pub fn virtual_slots_to_fill(filled: &[bool], open_pads: usize) -> (r: Vec<usize>)
    ensures
        r@ == slots_to_fill(filled@, open_pads as nat, filled@.len()),
{
    let mut r: Vec<usize> = Vec::new();
    let mut i: usize = 0;
    while i < filled.len()
        invariant
            i <= filled@.len(),
            r@ == slots_to_fill(filled@, open_pads as nat, i as nat),
        decreases filled@.len() - i,
    {
        if i < open_pads && !filled[i] {
            r.push(i);
        }
        i = i + 1;
    }
    r
}

/// Whether any slot holds a virtual pad.
pub fn any_filled(filled: &[bool]) -> (r: bool)
    ensures
        r == exists|i: int| 0 <= i < filled@.len() && filled@[i],
{
    let mut i: usize = 0;
    while i < filled.len()
        invariant
            i <= filled@.len(),
            forall|j: int| 0 <= j < i ==> !filled@[j],
        decreases filled@.len() - i,
    {
        if filled[i] {
            return true;
        }
        i = i + 1;
    }
    false
}

// ---------------------------------------------------------------------------
// Touchpad mouse
// ---------------------------------------------------------------------------

/// What the touchpad drives in touchpad-mouse mode.
#[derive(Debug, Clone, Copy, PartialEq, Eq, Structural)]
pub enum TouchGesture {
    /// One finger moves the pointer (and a pad click holds the left button).
    Pointer,
    /// Two fingers scroll.
    Scroll,
    /// No finger (or more than two).
    Idle,
}

pub open spec fn spec_touch_gesture(touch_count: u8) -> TouchGesture {
    if touch_count == 1 {
        TouchGesture::Pointer
    } else if touch_count == 2 {
        TouchGesture::Scroll
    } else {
        TouchGesture::Idle
    }
}

pub fn touch_gesture(touch_count: u8) -> (g: TouchGesture)
    ensures
        g == spec_touch_gesture(touch_count),
{
    if touch_count == 1 {
        TouchGesture::Pointer
    } else if touch_count == 2 {
        TouchGesture::Scroll
    } else {
        TouchGesture::Idle
    }
}

/// The left button held by the touchpad: in pointer mode it follows the
/// pad click; in any other gesture it is released. Returns the new held
/// state and the button event to send (`Some(true)` press, `Some(false)`
/// release). A press is only sent while released and a release only while
/// held, so presses and releases alternate.
pub fn touch_click(gesture: TouchGesture, pad_click: bool, held: bool) -> (r: (bool, Option<bool>))
    ensures
        r.0 == (gesture == TouchGesture::Pointer && pad_click),
        r.1 == (if r.0 == held {
            None
        } else {
            Some(r.0)
        }),
        r.1 == Some(true) ==> !held,
        r.1 == Some(false) ==> held,
{
    let next = match gesture {
        TouchGesture::Pointer => pad_click,
        _ => false,
    };
    if next == held {
        (held, None)
    } else {
        (next, Some(next))
    }
}

// ---------------------------------------------------------------------------
// Loop periods
// ---------------------------------------------------------------------------

/// How often the pad list is refreshed.
pub const RESCAN_PERIOD_MS: u64 = 750;
/// How often empty virtual pad slots are retried.
pub const VIRTUAL_RETRY_PERIOD_MS: u64 = 1500;
/// How long the poll rate and mean latency are measured over.
pub const RATE_WINDOW_MS: u64 = 500;
/// The UI snapshot period (60 Hz).
pub const EMIT_PERIOD_US: u64 = 16_666;

/// A pad-list refresh is due `elapsed_ms` after the last one.
pub fn rescan_due(elapsed_ms: u128) -> (r: bool)
    ensures
        r == (elapsed_ms >= RESCAN_PERIOD_MS),
{
    elapsed_ms >= RESCAN_PERIOD_MS as u128
}

/// A virtual pad retry is due `elapsed_ms` after the last one.
pub fn virtual_retry_due(elapsed_ms: u128) -> (r: bool)
    ensures
        r == (elapsed_ms >= VIRTUAL_RETRY_PERIOD_MS),
{
    elapsed_ms >= VIRTUAL_RETRY_PERIOD_MS as u128
}

/// The rates are published once a window is over and a report was read in
/// the current pass.
pub fn rates_due(read_any: bool, elapsed_ms: u128) -> (r: bool)
    ensures
        r == (read_any && elapsed_ms >= RATE_WINDOW_MS),
{
    read_any && elapsed_ms >= RATE_WINDOW_MS as u128
}

/// A UI snapshot is due `elapsed_us` after the last one.
pub fn emit_due(elapsed_us: u128) -> (r: bool)
    ensures
        r == (elapsed_us >= EMIT_PERIOD_US),
{
    elapsed_us >= EMIT_PERIOD_US as u128
}

// ---------------------------------------------------------------------------
// Which pads to open
// ---------------------------------------------------------------------------

/// How many of the first `n` listed pads are PlayStation pads.
pub open spec fn playstation_count(list: Seq<GamepadInfoView>, n: nat) -> nat
    decreases n,
{
    if n == 0 {
        0
    } else {
        playstation_count(list, (n - 1) as nat) + if list[n - 1].kind.spec_is_playstation() {
            1nat
        } else {
            0nat
        }
    }
}

/// Among the first `n` listed pads, in list order, those to open: each
/// PlayStation pad among the first `MAX_PADS` of them whose id is not open
/// yet.
pub open spec fn pads_to_open_prefix(list: Seq<GamepadInfoView>, opened: Seq<Seq<char>>, n: nat) -> Seq<usize>
    decreases n,
{
    if n == 0 {
        Seq::empty()
    } else {
        let prev = pads_to_open_prefix(list, opened, (n - 1) as nat);
        let g = list[n - 1];
        if g.kind.spec_is_playstation() && playstation_count(list, (n - 1) as nat) < MAX_PADS && !opened.contains(
            g.id,
        ) {
            prev.push((n - 1) as usize)
        } else {
            prev
        }
    }
}

pub open spec fn spec_pads_to_open(list: Seq<GamepadInfoView>, opened: Seq<Seq<char>>) -> Seq<usize> {
    pads_to_open_prefix(list, opened, list.len())
}

/// The listed pads to try to open: indices into `list`, in list order, of
/// the first `MAX_PADS` PlayStation pads listed, leaving out those whose id
/// is among `opened`. Other listed pads (XInput controllers) are not read.
/// (Two entries may share an id; once one of them is open the caller skips
/// the other.)
pub fn pads_to_open(list: &[GamepadInfo], opened: &[String]) -> (r: Vec<usize>)
    ensures
        r@ == spec_pads_to_open(info_views(list@), opened.deep_view()),
        r@.len() <= MAX_PADS,
        forall|k: int| 0 <= k < r@.len() ==> (#[trigger] r@[k]) < list@.len() && list@[r@[k] as int].kind.is_playstation(),
{
    let ghost lv = info_views(list@);
    let mut r: Vec<usize> = Vec::new();
    let mut ps: usize = 0;
    let mut i: usize = 0;
    while i < list.len()
        invariant
            lv == info_views(list@),
            i <= list@.len(),
            ps == playstation_count(lv, i as nat),
            ps <= i,
            r@ == pads_to_open_prefix(lv, opened.deep_view(), i as nat),
            r@.len() <= ps,
            r@.len() <= MAX_PADS,
            forall|k: int| 0 <= k < r@.len() ==> (#[trigger] r@[k]) < i && list@[r@[k] as int].kind.is_playstation(),
        decreases list@.len() - i,
    {
        assert(lv[i as int].id == list@[i as int].id@ && lv[i as int].kind == list@[i as int].kind);
        let is_ps = list[i].kind.is_playstation();
        if is_ps && ps < MAX_PADS {
            let open = crate::engine::ids_contain(opened, list[i].id.as_str());
            proof {
                assert(open == opened.deep_view().contains(lv[i as int].id)) by {
                    if open {
                        let j = choose|j: int|
                            0 <= j < opened@.len() && (#[trigger] opened@[j])@ == list@[i as int].id@;
                        assert(opened.deep_view()[j] == opened@[j]@);
                    }
                    if opened.deep_view().contains(lv[i as int].id) {
                        let j = choose|j: int|
                            0 <= j < opened.deep_view().len() && opened.deep_view()[j] == lv[i as int].id;
                        assert(opened.deep_view()[j] == opened@[j]@);
                    }
                }
            }
            if !open {
                r.push(i);
            }
        }
        if is_ps {
            ps = ps + 1;
        }
        i = i + 1;
    }
    r
}

// ---------------------------------------------------------------------------
// Telemetry window
// ---------------------------------------------------------------------------

/// Reports and latencies counted since the rates were last published.
/// Counts wrap on overflow.
pub struct PollWindow {
    pub hz_count: u32,
    pub latency_acc: u64,
    pub latency_n: u64,
}

impl PollWindow {
    /// An empty window.
    pub fn new() -> (w: PollWindow)
        ensures
            w.hz_count == 0 && w.latency_acc == 0 && w.latency_n == 0,
    {
        PollWindow { hz_count: 0, latency_acc: 0, latency_n: 0 }
    }

    /// One more report, handled in `dt_us` microseconds.
    pub fn record(&mut self, dt_us: u32)
        ensures
            final(self).hz_count == vstd::wrapping::u32_specs::wrapping_add(old(self).hz_count, 1),
            final(self).latency_acc == vstd::wrapping::u64_specs::wrapping_add(
                old(self).latency_acc,
                dt_us as u64,
            ),
            final(self).latency_n == vstd::wrapping::u64_specs::wrapping_add(old(self).latency_n, 1),
    {
        self.hz_count = self.hz_count.wrapping_add(1);
        self.latency_acc = self.latency_acc.wrapping_add(dt_us as u64);
        self.latency_n = self.latency_n.wrapping_add(1);
    }

    /// Mean latency of the window (`0` for an empty one), cut to 32 bits.
    pub fn average_latency_us(&self) -> (r: u32)
        ensures
            r == (self.latency_acc / (if self.latency_n == 0 {
                1
            } else {
                self.latency_n
            })) as u32,
    {
        let n: u64 = if self.latency_n == 0 {
            1
        } else {
            self.latency_n
        };
        (self.latency_acc / n) as u32
    }
}

} // verus!
