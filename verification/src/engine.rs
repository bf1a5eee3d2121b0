use vstd::prelude::*;
use crate::discovery::{
    enumerate, info_views, opt_chars, record_views, spec_enumerate, DeviceRecordView, GamepadInfo,
    GamepadInfoView, HidDeviceRecord,
};
use crate::strmap::StrMap;

verus! {

/// How many pads are driven at once.
pub const MAX_PADS: usize = 4;

// ---------------------------------------------------------------------------
// The model
// ---------------------------------------------------------------------------

/// Telemetry of the input loop, as shown to the user.
#[derive(Debug, Clone)]
pub struct EngineStats {
    pub running: bool,
    pub virtual_pad_online: bool,
    pub polls: u64,
    pub poll_hz: u32,
    pub avg_latency_us: u32,
    pub peak_latency_us: u32,
    pub dropped_reports: u64,
    pub reconnects: u32,
    pub driver: String,
}

/// The state of the engine: profiles (`P`), input snapshots (`S`), the pad
/// list, lightbar colours and loop telemetry.
pub struct EngineView<P, S> {
    pub default_profile: P,
    /// Per-pad profiles, by pad id.
    pub profiles: Map<Seq<char>, P>,
    /// The pad the UI is looking at.
    pub active: Option<Seq<char>>,
    pub running: bool,
    pub virtual_online: bool,
    pub polls: u64,
    pub dropped: u64,
    pub reconnects: u32,
    pub poll_hz: u32,
    pub avg_latency_us: u32,
    pub peak_latency_us: u32,
    /// Colours waiting to be written to their pad.
    pub led_requests: Map<Seq<char>, [u8; 3]>,
    /// The colour each pad was last given.
    pub led_state: Map<Seq<char>, [u8; 3]>,
    pub gyro_calibrate_request: bool,
    pub devices: Seq<GamepadInfoView>,
    /// The snapshot the UI shows.
    pub last_snapshot: S,
    /// The latest snapshot of each pad, by pad id.
    pub snapshots: Map<Seq<char>, S>,
}

/// Whether `devs[k]` is the first entry with id `id`.
pub open spec fn is_first_with_id(devs: Seq<GamepadInfoView>, id: Seq<char>, k: int) -> bool {
    devs[k].id == id && forall|j: int| 0 <= j < k ==> (#[trigger] devs[j]).id != id
}

/// `devs` with the lightbar colour of the first pad with id `id` set to `rgb`.
pub open spec fn with_led(devs: Seq<GamepadInfoView>, id: Seq<char>, rgb: [u8; 3]) -> Seq<GamepadInfoView> {
    Seq::new(
        devs.len(),
        |k: int|
            if is_first_with_id(devs, id, k) {
                GamepadInfoView { led: rgb, ..devs[k] }
            } else {
                devs[k]
            },
    )
}

/// The ids of a list of pads.
pub open spec fn pad_ids(devs: Seq<GamepadInfoView>) -> Seq<Seq<char>> {
    devs.map_values(|g: GamepadInfoView| g.id)
}

/// The id of the first pad of a list, if any.
pub open spec fn first_id(devs: Seq<GamepadInfoView>) -> Option<Seq<char>> {
    if devs.len() > 0 {
        Some(devs[0].id)
    } else {
        None
    }
}

impl<P, S> EngineView<P, S> {
    /// The profile `pad` is driven with: its own, else the default. For
    /// `None`, the active pad's own profile, else the default.
    pub open spec fn profile_for(self, pad: Option<Seq<char>>) -> P {
        match pad {
            Some(id) => if self.profiles.contains_key(id) {
                self.profiles[id]
            } else {
                self.default_profile
            },
            None => if self.active is Some && self.profiles.contains_key(self.active->0) {
                self.profiles[self.active->0]
            } else {
                self.default_profile
            },
        }
    }

    /// Setting a profile makes it the default and the profile of `pad` (for
    /// `None`, of the active pad, if there is one).
    pub open spec fn set_profile_for(self, pad: Option<Seq<char>>, p: P) -> Self {
        let profiles = match pad {
            Some(id) => self.profiles.insert(id, p),
            None => match self.active {
                Some(a) => self.profiles.insert(a, p),
                None => self.profiles,
            },
        };
        EngineView { default_profile: p, profiles, ..self }
    }

    /// The snapshot shown for `pad`: its own, else the active pad's, else the
    /// last one the UI was sent.
    pub open spec fn snapshot_for(self, pad: Option<Seq<char>>) -> S {
        if pad is Some && self.snapshots.contains_key(pad->0) {
            self.snapshots[pad->0]
        } else if self.active is Some && self.snapshots.contains_key(self.active->0) {
            self.snapshots[self.active->0]
        } else {
            self.last_snapshot
        }
    }

    /// A colour request: queued for the pad, remembered as its colour, and
    /// shown on the first listed pad with that id.
    pub open spec fn queue_led(self, id: Seq<char>, rgb: [u8; 3]) -> Self {
        EngineView {
            led_requests: self.led_requests.insert(id, rgb),
            led_state: self.led_state.insert(id, rgb),
            devices: with_led(self.devices, id, rgb),
            ..self
        }
    }

    /// The latest snapshot of pad `id` is `snap`.
    pub open spec fn store_snapshot(self, id: Seq<char>, snap: S) -> Self {
        EngineView { snapshots: self.snapshots.insert(id, snap), ..self }
    }

    /// The colour waiting for `id` has been handed out.
    pub open spec fn take_led_request(self, id: Seq<char>) -> Self {
        EngineView { led_requests: self.led_requests.remove(id), ..self }
    }

    /// `led` was written to pad `id`.
    pub open spec fn commit_led(self, id: Seq<char>, led: [u8; 3]) -> Self {
        EngineView { led_state: self.led_state.insert(id, led), ..self }
    }

    /// A rescan lists `list` and makes its first pad active when none was.
    pub open spec fn rescan(self, list: Seq<GamepadInfoView>) -> Self {
        EngineView {
            devices: list,
            active: if self.active is None {
                first_id(list)
            } else {
                self.active
            },
            ..self
        }
    }

    /// A device refresh lists `list` and keeps the active pad among them:
    /// an active pad that is gone (or none at all) is replaced by the first
    /// listed pad, or by none.
    pub open spec fn refresh_devices(self, list: Seq<GamepadInfoView>) -> Self {
        EngineView {
            devices: list,
            active: if self.active is None || !pad_ids(list).contains(self.active->0) {
                first_id(list)
            } else {
                self.active
            },
            ..self
        }
    }

    /// One more report polled, taking `dt_us` microseconds.
    pub open spec fn record_poll(self, dt_us: u32) -> Self {
        EngineView {
            polls: vstd::wrapping::u64_specs::wrapping_add(self.polls, 1),
            peak_latency_us: if dt_us > self.peak_latency_us {
                dt_us
            } else {
                self.peak_latency_us
            },
            ..self
        }
    }
}

// ---------------------------------------------------------------------------
// The engine
// ---------------------------------------------------------------------------

/// Engine state shared by the UI commands and the input loop.
#[verifier::reject_recursive_types(P)]
#[verifier::reject_recursive_types(S)]
pub struct PadFlowEngine<P, S> {
    default_profile: P,
    device_profiles: StrMap<P>,
    running: bool,
    virtual_online: bool,
    polls: u64,
    dropped: u64,
    reconnects: u32,
    poll_hz: u32,
    avg_latency_us: u32,
    peak_latency_us: u32,
    led_requests: StrMap<[u8; 3]>,
    led_state: StrMap<[u8; 3]>,
    gyro_calibrate_request: bool,
    devices: Vec<GamepadInfo>,
    last_snapshot: S,
    last_snapshots: StrMap<S>,
    active_pad: Option<String>,
}

impl<P, S> View for PadFlowEngine<P, S> {
    type V = EngineView<P, S>;

    closed spec fn view(&self) -> EngineView<P, S> {
        EngineView {
            default_profile: self.default_profile,
            profiles: self.device_profiles@,
            active: opt_chars(self.active_pad),
            running: self.running,
            virtual_online: self.virtual_online,
            polls: self.polls,
            dropped: self.dropped,
            reconnects: self.reconnects,
            poll_hz: self.poll_hz,
            avg_latency_us: self.avg_latency_us,
            peak_latency_us: self.peak_latency_us,
            led_requests: self.led_requests@,
            led_state: self.led_state@,
            gyro_calibrate_request: self.gyro_calibrate_request,
            devices: info_views(self.devices@),
            last_snapshot: self.last_snapshot,
            snapshots: self.last_snapshots@,
        }
    }
}

impl<P, S> PadFlowEngine<P, S> {
    /// Every keyed table is well formed.
    pub closed spec fn wf(&self) -> bool {
        &&& self.device_profiles.wf()
        &&& self.led_requests.wf()
        &&& self.led_state.wf()
        &&& self.last_snapshots.wf()
    }

    /// A stopped engine with no pads, no per-pad state and zeroed
    /// telemetry, driving every pad with `default_profile`.
    pub fn new(default_profile: P, blank_snapshot: S) -> (e: Self)
        ensures
            e.wf(),
            e@ == (EngineView {
                default_profile,
                profiles: Map::empty(),
                active: None,
                running: false,
                virtual_online: false,
                polls: 0,
                dropped: 0,
                reconnects: 0,
                poll_hz: 0,
                avg_latency_us: 0,
                peak_latency_us: 0,
                led_requests: Map::empty(),
                led_state: Map::empty(),
                gyro_calibrate_request: false,
                devices: Seq::empty(),
                last_snapshot: blank_snapshot,
                snapshots: Map::empty(),
            }),
    {
        let e = PadFlowEngine {
            default_profile,
            device_profiles: StrMap::new(),
            running: false,
            virtual_online: false,
            polls: 0,
            dropped: 0,
            reconnects: 0,
            poll_hz: 0,
            avg_latency_us: 0,
            peak_latency_us: 0,
            led_requests: StrMap::new(),
            led_state: StrMap::new(),
            gyro_calibrate_request: false,
            devices: Vec::new(),
            last_snapshot: blank_snapshot,
            last_snapshots: StrMap::new(),
            active_pad: None,
        };
        proof {
            assert(info_views(e.devices@) =~= Seq::empty());
        }
        e
    }

    pub fn is_running(&self) -> (r: bool)
        ensures
            r == self@.running,
    {
        self.running
    }

    /// The pads found by the last scan.
    pub fn devices(&self) -> (r: &Vec<GamepadInfo>)
        ensures
            info_views(r@) == self@.devices,
    {
        &self.devices
    }

    /// Makes `pad_id` the pad the UI is looking at.
    pub fn set_active_pad(&mut self, pad_id: &str)
        requires
            old(self).wf(),
        ensures
            final(self).wf(),
            final(self)@ == (EngineView { active: Some(pad_id@), ..old(self)@ }),
    {
        self.active_pad = Some(pad_id.to_owned());
    }

    /// The pad the UI is looking at, if any.
    pub fn active_pad(&self) -> (r: Option<String>)
        ensures
            opt_chars(r) == self@.active,
    {
        match &self.active_pad {
            Some(a) => Some(a.clone()),
            None => None,
        }
    }

    /// The snapshot shown for `pad_id`: its own, else the active pad's, else
    /// the last one the UI was sent.
    pub fn snapshot_for(&self, pad_id: Option<&str>) -> (r: &S)
        requires
            self.wf(),
        ensures
            *r == self@.snapshot_for(match pad_id {
                Some(id) => Some(id@),
                None => None,
            }),
    {
        match pad_id {
            Some(id) => match self.last_snapshots.get(id) {
                Some(s) => {
                    return s;
                },
                None => {},
            },
            None => {},
        }
        match &self.active_pad {
            Some(a) => match self.last_snapshots.get(a.as_str()) {
                Some(s) => {
                    return s;
                },
                None => {},
            },
            None => {},
        }
        &self.last_snapshot
    }

    /// The snapshot the UI was last sent.
    pub fn snapshot(&self) -> (r: &S)
        ensures
            *r == self@.last_snapshot,
    {
        &self.last_snapshot
    }

    /// Records the latest snapshot of a pad.
    pub fn store_snapshot(&mut self, pad_id: String, snap: S)
        requires
            old(self).wf(),
        ensures
            final(self).wf(),
            final(self)@ == old(self)@.store_snapshot(pad_id@, snap),
    {
        self.last_snapshots.insert(pad_id, snap);
    }

    /// Makes `snap` the snapshot the UI shows.
    pub fn set_last_snapshot(&mut self, snap: S)
        requires
            old(self).wf(),
        ensures
            final(self).wf(),
            final(self)@ == (EngineView { last_snapshot: snap, ..old(self)@ }),
    {
        self.last_snapshot = snap;
    }

    /// Marks the input loop as running; refused when it already is.
    pub fn claim_run(&mut self) -> (r: Result<(), String>)
        requires
            old(self).wf(),
        ensures
            final(self).wf(),
            r is Ok <==> !old(self)@.running,
            r matches Err(msg) ==> msg@ == "PadFlow engine is already running"@,
            final(self)@ == (EngineView { running: true, ..old(self)@ }),
    {
        if self.running {
            return Err("PadFlow engine is already running".to_owned());
        }
        self.running = true;
        Ok(())
    }

    /// Asks the input loop to stop.
    pub fn stop(&mut self)
        requires
            old(self).wf(),
        ensures
            final(self).wf(),
            final(self)@ == (EngineView { running: false, ..old(self)@ }),
    {
        self.running = false;
    }

    /// The input loop has ended: not running, no virtual pad online.
    pub fn finish_run(&mut self)
        requires
            old(self).wf(),
        ensures
            final(self).wf(),
            final(self)@ == (EngineView { running: false, virtual_online: false, ..old(self)@ }),
    {
        self.running = false;
        self.virtual_online = false;
    }

    /// Asks the input loop to re-capture the gyro rest offset.
    pub fn recalibrate_gyro(&mut self)
        requires
            old(self).wf(),
        ensures
            final(self).wf(),
            final(self)@ == (EngineView { gyro_calibrate_request: true, ..old(self)@ }),
    {
        self.gyro_calibrate_request = true;
    }

    /// Hands the pending gyro re-calibration request to the input loop and
    /// clears it.
    pub fn take_gyro_calibrate_request(&mut self) -> (r: bool)
        requires
            old(self).wf(),
        ensures
            final(self).wf(),
            r == old(self)@.gyro_calibrate_request,
            final(self)@ == (EngineView { gyro_calibrate_request: false, ..old(self)@ }),
    {
        let r = self.gyro_calibrate_request;
        self.gyro_calibrate_request = false;
        r
    }

    /// One more report polled in `dt_us` microseconds: the poll count grows
    /// (wrapping) and the peak latency follows the largest seen.
    pub fn record_poll(&mut self, dt_us: u32)
        requires
            old(self).wf(),
        ensures
            final(self).wf(),
            final(self)@ == old(self)@.record_poll(dt_us),
    {
        self.polls = self.polls.wrapping_add(1);
        if dt_us > self.peak_latency_us {
            self.peak_latency_us = dt_us;
        }
    }

    /// One more report lost (read error or unparsable report).
    pub fn record_drop(&mut self)
        requires
            old(self).wf(),
        ensures
            final(self).wf(),
            final(self)@ == (EngineView {
                dropped: vstd::wrapping::u64_specs::wrapping_add(old(self)@.dropped, 1),
                ..old(self)@
            }),
    {
        self.dropped = self.dropped.wrapping_add(1);
    }

    /// One more reconnection (a refresh opened more pads than before).
    pub fn record_reconnect(&mut self)
        requires
            old(self).wf(),
        ensures
            final(self).wf(),
            final(self)@ == (EngineView {
                reconnects: vstd::wrapping::u32_specs::wrapping_add(old(self)@.reconnects, 1),
                ..old(self)@
            }),
    {
        self.reconnects = self.reconnects.wrapping_add(1);
    }

    /// A device refresh took the open pads from `opened_before` to
    /// `opened_after`: more pads than before counts as a reconnection.
    pub fn record_refresh(&mut self, opened_before: usize, opened_after: usize)
        requires
            old(self).wf(),
        ensures
            final(self).wf(),
            final(self)@ == (if opened_after > opened_before {
                EngineView {
                    reconnects: vstd::wrapping::u32_specs::wrapping_add(old(self)@.reconnects, 1),
                    ..old(self)@
                }
            } else {
                old(self)@
            }),
    {
        if opened_after > opened_before {
            self.record_reconnect();
        }
    }

    /// Whether any virtual pad is plugged in.
    pub fn set_virtual_online(&mut self, online: bool)
        requires
            old(self).wf(),
        ensures
            final(self).wf(),
            final(self)@ == (EngineView { virtual_online: online, ..old(self)@ }),
    {
        self.virtual_online = online;
    }

    /// Publishes the rates measured over the last window.
    pub fn publish_rates(&mut self, poll_hz: u32, avg_latency_us: u32)
        requires
            old(self).wf(),
        ensures
            final(self).wf(),
            final(self)@ == (EngineView { poll_hz, avg_latency_us, ..old(self)@ }),
    {
        self.poll_hz = poll_hz;
        self.avg_latency_us = avg_latency_us;
    }

    /// The loop telemetry, with the name of the output driver.
    pub fn stats(&self) -> (st: EngineStats)
        ensures
            st.running == self@.running,
            st.virtual_pad_online == self@.virtual_online,
            st.polls == self@.polls,
            st.poll_hz == self@.poll_hz,
            st.avg_latency_us == self@.avg_latency_us,
            st.peak_latency_us == self@.peak_latency_us,
            st.dropped_reports == self@.dropped,
            st.reconnects == self@.reconnects,
            st.driver@ == "ViGEmBus / Xbox 360 Controller"@,
    {
        EngineStats {
            running: self.running,
            virtual_pad_online: self.virtual_online,
            polls: self.polls,
            poll_hz: self.poll_hz,
            avg_latency_us: self.avg_latency_us,
            peak_latency_us: self.peak_latency_us,
            dropped_reports: self.dropped,
            reconnects: self.reconnects,
            driver: "ViGEmBus / Xbox 360 Controller".to_owned(),
        }
    }

    /// Queues a lightbar colour for `pad_id`: it is written on the pad's
    /// next report, remembered across rescans, and shown at once on the
    /// first listed pad with that id.
    pub fn queue_led(&mut self, pad_id: &str, rgb: [u8; 3])
        requires
            old(self).wf(),
        ensures
            final(self).wf(),
            final(self)@ == old(self)@.queue_led(pad_id@, rgb),
    {
        self.led_requests.insert(pad_id.to_owned(), rgb);
        self.led_state.insert(pad_id.to_owned(), rgb);
        let key = pad_id.to_owned();
        let ghost devs = info_views(self.devices@);
        let ghost mid = self@;
        let mut i: usize = 0;
        while i < self.devices.len()
            invariant
                self.wf(),
                self@ == mid,
                mid == (EngineView {
                    led_requests: old(self)@.led_requests.insert(pad_id@, rgb),
                    led_state: old(self)@.led_state.insert(pad_id@, rgb),
                    ..old(self)@
                }),
                i <= self.devices@.len(),
                devs == info_views(self.devices@),
                key@ == pad_id@,
                forall|j: int| 0 <= j < i ==> (#[trigger] self.devices@[j]).id@ != key@,
            decreases self.devices@.len() - i,
        {
            if self.devices[i].id == key {
                let mut d = self.devices.remove(i);
                d.led = rgb;
                self.devices.insert(i, d);
                proof {
                    assert forall|k: int| 0 <= k < devs.len() implies info_views(self.devices@)[k]
                        == with_led(devs, pad_id@, rgb)[k] by {
                        if k < i {
                            assert(devs[k].id != pad_id@);
                            assert(!is_first_with_id(devs, pad_id@, k));
                        } else if k > i {
                            assert(devs[i as int].id == pad_id@);
                            assert(!is_first_with_id(devs, pad_id@, k));
                        } else {
                            assert forall|j: int| 0 <= j < k implies (#[trigger] devs[j]).id != pad_id@ by {
                                assert(devs[j].id == self.devices@[j].id@);
                            }
                            assert(is_first_with_id(devs, pad_id@, k));
                        }
                    }
                    assert(info_views(self.devices@) =~= with_led(devs, pad_id@, rgb));
                }
                return;
            }
            i = i + 1;
        }
        proof {
            assert forall|k: int| 0 <= k < devs.len() implies !is_first_with_id(devs, pad_id@, k) by {
                assert(devs[k].id == self.devices@[k].id@);
            }
            assert(devs =~= with_led(devs, pad_id@, rgb));
        }
    }

    /// Hands the colour waiting for `pad_id` to the input loop, if any.
    pub fn take_led_request(&mut self, pad_id: &str) -> (r: Option<[u8; 3]>)
        requires
            old(self).wf(),
        ensures
            final(self).wf(),
            r == (if old(self)@.led_requests.contains_key(pad_id@) {
                Some(old(self)@.led_requests[pad_id@])
            } else {
                None::<[u8; 3]>
            }),
            final(self)@ == old(self)@.take_led_request(pad_id@),
    {
        self.led_requests.take(pad_id)
    }

    /// `led` was written to `pad_id`: remember it as the pad's colour.
    pub fn commit_led(&mut self, pad_id: String, led: [u8; 3])
        requires
            old(self).wf(),
        ensures
            final(self).wf(),
            final(self)@ == old(self)@.commit_led(pad_id@, led),
    {
        self.led_state.insert(pad_id, led);
    }

    /// Re-enumerates the bus: the pad list becomes `records`' pads (colours
    /// from the remembered ones), and its first pad becomes active when none
    /// was.
    pub fn rescan(&mut self, records: &[HidDeviceRecord])
        requires
            old(self).wf(),
        ensures
            final(self).wf(),
            final(self)@ == old(self)@.rescan(spec_enumerate(record_views(records@), old(self)@.led_state)),
    {
        let list = enumerate(records, &self.led_state);
        if self.active_pad.is_none() {
            if list.len() > 0 {
                self.active_pad = Some(list[0].id.clone());
            }
        }
        self.devices = list;
    }

    /// Refreshes the pad list for the input loop: the list becomes
    /// `records`' pads, and the active pad is kept only while it is listed
    /// (else the first listed pad, or none, takes its place).
    pub fn refresh_devices(&mut self, records: &[HidDeviceRecord])
        requires
            old(self).wf(),
        ensures
            final(self).wf(),
            final(self)@ == old(self)@.refresh_devices(spec_enumerate(record_views(records@), old(self)@.led_state)),
    {
        let list = enumerate(records, &self.led_state);
        let ghost lv = info_views(list@);
        let keep = match &self.active_pad {
            Some(a) => lists_pad(list.as_slice(), a.as_str()),
            None => false,
        };
        if !keep {
            self.active_pad = if list.len() > 0 {
                Some(list[0].id.clone())
            } else {
                None
            };
        }
        proof {
            assert(lv.len() == list@.len());
            if list@.len() > 0 {
                assert(lv[0] == list@[0]@);
            }
        }
        self.devices = list;
    }
}

impl<P: Copy, S> PadFlowEngine<P, S> {
    /// The profile `pad_id` is driven with: its own, else the default. For
    /// `None`, the active pad's own profile, else the default.
    pub fn profile_for(&self, pad_id: Option<&str>) -> (p: P)
        requires
            self.wf(),
        ensures
            p == self@.profile_for(match pad_id {
                Some(id) => Some(id@),
                None => None,
            }),
    {
        match pad_id {
            Some(id) => match self.device_profiles.get(id) {
                Some(p) => *p,
                None => self.default_profile,
            },
            None => match &self.active_pad {
                Some(a) => match self.device_profiles.get(a.as_str()) {
                    Some(p) => *p,
                    None => self.default_profile,
                },
                None => self.default_profile,
            },
        }
    }

    /// The profile of the active pad (else the default).
    pub fn profile(&self) -> (p: P)
        requires
            self.wf(),
        ensures
            p == self@.profile_for(None),
    {
        self.profile_for(None)
    }

    /// Makes `p` the default profile and the profile of `pad_id` (for
    /// `None`, of the active pad, if any).
    pub fn set_profile_for(&mut self, pad_id: Option<&str>, p: P)
        requires
            old(self).wf(),
        ensures
            final(self).wf(),
            final(self)@ == old(self)@.set_profile_for(
                match pad_id {
                    Some(id) => Some(id@),
                    None => None,
                },
                p,
            ),
    {
        self.default_profile = p;
        match pad_id {
            Some(id) => {
                self.device_profiles.insert(id.to_owned(), p);
            },
            None => match &self.active_pad {
                Some(a) => {
                    let key = a.clone();
                    self.device_profiles.insert(key, p);
                },
                None => {},
            },
        }
    }

    /// `set_profile_for(None, p)`.
    pub fn set_profile(&mut self, p: P)
        requires
            old(self).wf(),
        ensures
            final(self).wf(),
            final(self)@ == old(self)@.set_profile_for(None, p),
    {
        self.set_profile_for(None, p)
    }

    /// Every per-pad profile, once per pad id.
    pub fn all_profiles(&self) -> (r: Vec<(String, P)>)
        requires
            self.wf(),
        ensures
            forall|i: int|
                0 <= i < r@.len() ==> self@.profiles.contains_key((#[trigger] r@[i]).0@)
                    && self@.profiles[r@[i].0@] == r@[i].1,
            forall|k: Seq<char>|
                #[trigger] self@.profiles.contains_key(k) ==> exists|i: int| 0 <= i < r@.len() && r@[i].0@ == k,
            forall|i: int, j: int| 0 <= i < j < r@.len() ==> (#[trigger] r@[i]).0@ != (#[trigger] r@[j]).0@,
    {
        self.device_profiles.entries()
    }
}

/// Whether a pad with id `id` is in `list`.
pub fn lists_pad(list: &[GamepadInfo], id: &str) -> (r: bool)
    ensures
        r == pad_ids(info_views(list@)).contains(id@),
{
    let key = id.to_owned();
    let mut i: usize = 0;
    while i < list.len()
        invariant
            i <= list@.len(),
            key@ == id@,
            forall|j: int| 0 <= j < i ==> (#[trigger] list@[j]).id@ != id@,
        decreases list@.len() - i,
    {
        if list[i].id == key {
            proof {
                assert(pad_ids(info_views(list@))[i as int] == id@);
            }
            return true;
        }
        i = i + 1;
    }
    proof {
        if pad_ids(info_views(list@)).contains(id@) {
            let j = choose|j: int| 0 <= j < pad_ids(info_views(list@)).len() && pad_ids(info_views(list@))[j] == id@;
            assert(list@[j].id@ == id@);
        }
    }
    false
}


/// Whether `id` is among `ids`.
pub fn ids_contain(ids: &[String], id: &str) -> (r: bool)
    ensures
        r == exists|i: int| 0 <= i < ids@.len() && (#[trigger] ids@[i])@ == id@,
{
    let key = id.to_owned();
    let mut i: usize = 0;
    while i < ids.len()
        invariant
            i <= ids@.len(),
            key@ == id@,
            forall|j: int| 0 <= j < i ==> (#[trigger] ids@[j])@ != id@,
        decreases ids@.len() - i,
    {
        if ids[i] == key {
            return true;
        }
        i = i + 1;
    }
    false
}

// ---------------------------------------------------------------------------
// Laws
// ---------------------------------------------------------------------------

/// The profile just set is the one the named pad is driven with; for
/// `None`, the one `profile()` returns, whichever pad is active.
pub proof fn lemma_profile_read_back<P, S>(v: EngineView<P, S>, pad: Option<Seq<char>>, p: P)
    ensures
        v.set_profile_for(pad, p).profile_for(pad) == p,
{
}

/// Setting one pad's profile leaves every other pad that has a profile of
/// its own as it was.
pub proof fn lemma_profile_isolated<P, S>(v: EngineView<P, S>, id: Seq<char>, other: Seq<char>, p: P)
    requires
        id != other,
        v.profiles.contains_key(other),
    ensures
        v.set_profile_for(Some(id), p).profile_for(Some(other)) == v.profile_for(Some(other)),
{
}

/// The snapshot stored for a pad is the one shown for it.
pub proof fn lemma_snapshot_read_back<P, S>(v: EngineView<P, S>, id: Seq<char>, snap: S)
    ensures
        v.store_snapshot(id, snap).snapshot_for(Some(id)) == snap,
{
}

/// A queued colour is handed to the input loop exactly once, and every pad
/// with that id shows it after a rescan or a device refresh.
pub proof fn lemma_led_request_round_trip<P, S>(
    v: EngineView<P, S>,
    id: Seq<char>,
    rgb: [u8; 3],
    recs: Seq<DeviceRecordView>,
)
    ensures
        v.queue_led(id, rgb).led_requests.contains_key(id),
        v.queue_led(id, rgb).led_requests[id] == rgb,
        !v.queue_led(id, rgb).take_led_request(id).led_requests.contains_key(id),
        forall|k: int|
            0 <= k < spec_enumerate(recs, v.queue_led(id, rgb).led_state).len()
                && (#[trigger] spec_enumerate(recs, v.queue_led(id, rgb).led_state)[k]).id == id ==> v.queue_led(
                id,
                rgb,
            ).rescan(spec_enumerate(recs, v.queue_led(id, rgb).led_state)).devices[k].led == rgb
                && v.queue_led(id, rgb).refresh_devices(
                spec_enumerate(recs, v.queue_led(id, rgb).led_state),
            ).devices[k].led == rgb,
{
    crate::discovery::lemma_enumerate_pads(recs, v.queue_led(id, rgb).led_state);
}

/// After a device refresh the active pad is one of the listed pads (none
/// only when nothing is listed), and an active pad that is still listed
/// stays active.
pub proof fn lemma_refresh_keeps_active_listed<P, S>(v: EngineView<P, S>, list: Seq<GamepadInfoView>)
    ensures
        v.refresh_devices(list).active is Some <==> list.len() > 0,
        v.refresh_devices(list).active matches Some(a) ==> pad_ids(list).contains(a),
        v.active matches Some(a) && pad_ids(list).contains(a) ==> v.refresh_devices(list).active == v.active,
{
    if list.len() > 0 {
        assert(pad_ids(list)[0] == list[0].id);
    }
}

/// A rescan never replaces an active pad, and leaves one active whenever
/// it lists any pad.
pub proof fn lemma_rescan_active<P, S>(v: EngineView<P, S>, list: Seq<GamepadInfoView>)
    ensures
        v.active is Some ==> v.rescan(list).active == v.active,
        list.len() > 0 ==> v.rescan(list).active is Some,
        v.active is None && list.len() > 0 ==> v.rescan(list).active == Some(list[0].id),
{
}

} // verus!
