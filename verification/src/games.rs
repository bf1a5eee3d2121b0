use vstd::prelude::*;
use crate::strmap::StrMap;
use crate::text::{to_lowercase, lower_case};

verus! {

/// How often running processes are scanned for games.
pub const SCAN_INTERVAL_MS: u64 = 1000;

/// The polling / batching tuning a built-in game profile recommends.
#[derive(Debug, Clone, Copy, PartialEq, Eq, Structural)]
pub struct GameTuning {
    pub adaptive_polling: bool,
    pub target_poll_hz: u32,
    pub batch_reports: bool,
    pub battery_saver: bool,
    pub ai_curve_optimization: bool,
}

/// A game the detector knows, with the profile (`P`) it recommends.
#[derive(Debug)]
pub struct GameProfile<P> {
    pub game_id: String,
    pub executable_name: String,
    pub game_title: String,
    pub recommended_profile: P,
    pub ai_curve_optimization: bool,
    pub battery_saver_recommended: bool,
    pub battery_threshold: u8,
    pub icon_path: Option<String>,
    pub last_played: Option<u64>,
    pub play_time_seconds: u64,
}

/// A running process recognised as a known game.
#[derive(Debug)]
pub struct DetectedGame {
    pub game_id: String,
    pub executable_name: String,
    pub game_title: String,
    pub process_id: u32,
    pub detected_at: u64,
    pub profile_applied: bool,
}

fn copy_string(s: &String) -> (r: String)
    ensures
        r == *s,
{
    s.clone()
}

fn copy_opt_string(s: &Option<String>) -> (r: Option<String>)
    ensures
        r == *s,
{
    match s {
        Some(x) => Some(copy_string(x)),
        None => None,
    }
}

/// A field-by-field copy of a game profile.
pub fn copy_profile<P: Copy>(g: &GameProfile<P>) -> (r: GameProfile<P>)
    ensures
        r == *g,
{
    GameProfile {
        game_id: copy_string(&g.game_id),
        executable_name: copy_string(&g.executable_name),
        game_title: copy_string(&g.game_title),
        recommended_profile: g.recommended_profile,
        ai_curve_optimization: g.ai_curve_optimization,
        battery_saver_recommended: g.battery_saver_recommended,
        battery_threshold: g.battery_threshold,
        icon_path: copy_opt_string(&g.icon_path),
        last_played: g.last_played,
        play_time_seconds: g.play_time_seconds,
    }
}

/// The characters of a detected game.
pub struct DetectedGameView {
    pub game_id: Seq<char>,
    pub executable_name: Seq<char>,
    pub game_title: Seq<char>,
    pub process_id: u32,
    pub detected_at: u64,
    pub profile_applied: bool,
}

impl View for DetectedGame {
    type V = DetectedGameView;

    open spec fn view(&self) -> DetectedGameView {
        DetectedGameView {
            game_id: self.game_id@,
            executable_name: self.executable_name@,
            game_title: self.game_title@,
            process_id: self.process_id,
            detected_at: self.detected_at,
            profile_applied: self.profile_applied,
        }
    }
}

pub open spec fn detected_views(s: Seq<DetectedGame>) -> Seq<DetectedGameView> {
    s.map_values(|d: DetectedGame| d@)
}

/// A field-by-field copy of a detected game.
pub fn copy_detected(d: &DetectedGame) -> (r: DetectedGame)
    ensures
        r@ == d@,
{
    DetectedGame {
        game_id: copy_string(&d.game_id),
        executable_name: copy_string(&d.executable_name),
        game_title: copy_string(&d.game_title),
        process_id: d.process_id,
        detected_at: d.detected_at,
        profile_applied: d.profile_applied,
    }
}

// ---------------------------------------------------------------------------
// The model
// ---------------------------------------------------------------------------

/// The state of the detector: known games by executable name, the games
/// seen running (one entry per process id), the profile used when no game
/// runs, and whether profiles switch automatically.
pub struct GameDetectorView<P> {
    pub games: Map<Seq<char>, GameProfile<P>>,
    pub detected: Seq<DetectedGameView>,
    pub default_profile: P,
    pub auto_switch_enabled: bool,
}

/// Process ids are listed at most once.
pub open spec fn pids_distinct(s: Seq<DetectedGameView>) -> bool {
    forall|i: int, j: int| 0 <= i < j < s.len() ==> (#[trigger] s[i]).process_id != (#[trigger] s[j]).process_id
}

/// `s` with the entry of `d`'s process replaced by `d`, or `d` appended.
pub open spec fn upsert_by_pid(s: Seq<DetectedGameView>, d: DetectedGameView) -> Seq<DetectedGameView> {
    if exists|i: int| 0 <= i < s.len() && (#[trigger] s[i]).process_id == d.process_id {
        s.update(choose|i: int| 0 <= i < s.len() && (#[trigger] s[i]).process_id == d.process_id, d)
    } else {
        s.push(d)
    }
}

/// The entries of `s` whose process is among `alive`, in order.
pub open spec fn retain_alive(s: Seq<DetectedGameView>, alive: Seq<u32>) -> Seq<DetectedGameView>
    decreases s.len(),
{
    if s.len() == 0 {
        s
    } else {
        let r = retain_alive(s.drop_last(), alive);
        if alive.contains(s.last().process_id) {
            r.push(s.last())
        } else {
            r
        }
    }
}

/// The games of a list of profiles, each under its lower-cased executable
/// name (later entries win).
pub open spec fn games_of<P>(l: Seq<GameProfile<P>>) -> Map<Seq<char>, GameProfile<P>>
    decreases l.len(),
{
    if l.len() == 0 {
        Map::empty()
    } else {
        games_of(l.drop_last()).insert(lower_case(l.last().executable_name@), l.last())
    }
}

impl<P> GameDetectorView<P> {
    /// The profile recommended for an executable (looked up lower-cased).
    pub open spec fn profile_for_game(self, exe: Seq<char>) -> Option<P> {
        let k = lower_case(exe);
        if self.games.contains_key(k) {
            Some(self.games[k].recommended_profile)
        } else {
            None
        }
    }

    /// Battery saver is recommended for a known game when its profile asks
    /// for it and the battery is at or below its threshold; for any other
    /// executable when the battery is at or below 30 %.
    pub open spec fn recommend_battery_saver(self, exe: Seq<char>, battery: u8) -> bool {
        let k = lower_case(exe);
        if self.games.contains_key(k) {
            self.games[k].battery_saver_recommended && battery <= self.games[k].battery_threshold
        } else {
            battery <= 30
        }
    }

    pub open spec fn add_game_profile(self, p: GameProfile<P>) -> Self {
        GameDetectorView { games: self.games.insert(lower_case(p.executable_name@), p), ..self }
    }

    pub open spec fn remove_game_profile(self, exe: Seq<char>) -> Self {
        GameDetectorView { games: self.games.remove(lower_case(exe)), ..self }
    }

    /// A running process `pid` with executable `exe`, seen at `now`: when
    /// its lower-cased name is a known game, the game is listed as detected
    /// for that process and its last-played time and play time advance.
    pub open spec fn record_running_process(self, pid: u32, exe: Seq<char>, now: u64) -> Self {
        let k = lower_case(exe);
        if self.games.contains_key(k) {
            let g = self.games[k];
            let d = DetectedGameView {
                game_id: g.game_id@,
                executable_name: k,
                game_title: g.game_title@,
                process_id: pid,
                detected_at: now,
                profile_applied: true,
            };
            GameDetectorView {
                detected: upsert_by_pid(self.detected, d),
                games: self.games.insert(
                    k,
                    GameProfile {
                        last_played: Some(now),
                        play_time_seconds: vstd::wrapping::u64_specs::wrapping_add(g.play_time_seconds, 1),
                        ..g
                    },
                ),
                ..self
            }
        } else {
            self
        }
    }

    /// Only the detected games whose process is still alive remain.
    pub open spec fn retain_running(self, alive: Seq<u32>) -> Self {
        GameDetectorView { detected: retain_alive(self.detected, alive), ..self }
    }
}

fn contains_u32(s: &[u32], x: u32) -> (r: bool)
    ensures
        r == s@.contains(x),
{
    let mut i: usize = 0;
    while i < s.len()
        invariant
            i <= s@.len(),
            forall|j: int| 0 <= j < i ==> s@[j] != x,
        decreases s@.len() - i,
    {
        if s[i] == x {
            assert(s@[i as int] == x);
            return true;
        }
        i = i + 1;
    }
    false
}

/// Replaces the entry of `d`'s process, or appends `d`.
fn upsert_detected(v: &mut Vec<DetectedGame>, d: DetectedGame)
    requires
        pids_distinct(detected_views(old(v)@)),
    ensures
        pids_distinct(detected_views(final(v)@)),
        detected_views(final(v)@) == upsert_by_pid(detected_views(old(v)@), d@),
{
    let ghost s = detected_views(v@);
    let ghost dv = d@;
    let mut i: usize = 0;
    while i < v.len()
        invariant
            s == detected_views(v@),
            s == detected_views(old(v)@),
            i <= v@.len(),
            forall|j: int| 0 <= j < i ==> (#[trigger] v@[j]).process_id != dv.process_id,
            dv == d@,
            pids_distinct(s),
        decreases v@.len() - i,
    {
        if v[i].process_id == d.process_id {
            v.set(i, d);
            proof {
                assert(s[i as int].process_id == dv.process_id);
                let c = choose|c: int| 0 <= c < s.len() && (#[trigger] s[c]).process_id == dv.process_id;
                assert(c == i);
                assert(upsert_by_pid(s, dv) == s.update(i as int, dv));
                assert(detected_views(v@) =~= s.update(i as int, dv));
                assert forall|a: int, b: int| 0 <= a < b < s.len() implies (#[trigger] s.update(
                    i as int,
                    dv,
                )[a]).process_id != (#[trigger] s.update(i as int, dv)[b]).process_id by {
                    if a != i && b != i {
                        assert(s[a].process_id != s[b].process_id);
                    } else if a == i {
                        assert(s[i as int].process_id != s[b].process_id);
                    } else {
                        assert(s[a].process_id != s[i as int].process_id);
                    }
                }
            }
            return;
        }
        i = i + 1;
    }
    proof {
        assert forall|c: int| 0 <= c < s.len() implies (#[trigger] s[c]).process_id != dv.process_id by {
            assert(s[c] == v@[c]@);
        }
    }
    v.push(d);
    proof {
        assert(detected_views(v@) =~= s.push(dv));
        assert forall|a: int, b: int| 0 <= a < b < s.push(dv).len() implies (#[trigger] s.push(dv)[a]).process_id
            != (#[trigger] s.push(dv)[b]).process_id by {
            if b < s.len() {
                assert(s[a].process_id != s[b].process_id);
            } else {
                assert(s[a].process_id != dv.process_id);
            }
        }
    }
}

/// Whether a new scan is due, `elapsed_ms` after the last one.
pub fn scan_due(elapsed_ms: u128) -> (r: bool)
    ensures
        r == (elapsed_ms >= SCAN_INTERVAL_MS),
{
    elapsed_ms >= SCAN_INTERVAL_MS as u128
}

// ---------------------------------------------------------------------------
// The detector
// ---------------------------------------------------------------------------

/// Known games, detected games and the switching settings.
///
/// Detected games are a list with one entry per process id, in the order
/// they were first seen, so that the listing the UI gets is determined; a
/// hash map by process id would list them in an order that changes with
/// each process's hasher seed.
#[verifier::reject_recursive_types(P)]
pub struct GameDetector<P> {
    games_db: StrMap<GameProfile<P>>,
    detected_games: Vec<DetectedGame>,
    default_profile: P,
    auto_switch_enabled: bool,
}

impl<P> View for GameDetector<P> {
    type V = GameDetectorView<P>;

    closed spec fn view(&self) -> GameDetectorView<P> {
        GameDetectorView {
            games: self.games_db@,
            detected: detected_views(self.detected_games@),
            default_profile: self.default_profile,
            auto_switch_enabled: self.auto_switch_enabled,
        }
    }
}

/// Every game is filed under its own lower-cased executable name.
pub open spec fn filed_by_name<P>(games: Map<Seq<char>, GameProfile<P>>) -> bool {
    forall|k: Seq<char>| #[trigger] games.contains_key(k) ==> lower_case(games[k].executable_name@) == k
}

impl<P> GameDetector<P> {
    /// The game table is well formed and each process is listed once.
    pub closed spec fn wf(&self) -> bool {
        &&& self.games_db.wf()
        &&& filed_by_name(self.games_db@)
        &&& pids_distinct(detected_views(self.detected_games@))
    }
}

impl<P: Copy> GameDetector<P> {
    /// A detector knowing `games` (each under its lower-cased executable name), with
    /// nothing detected and automatic switching on.
    pub fn new(default_profile: P, games: Vec<GameProfile<P>>) -> (d: Self)
        ensures
            d.wf(),
            d@ == (GameDetectorView {
                games: games_of(games@),
                detected: Seq::<DetectedGameView>::empty(),
                default_profile,
                auto_switch_enabled: true,
            }),
    {
        let ghost all = games@;
        let n: usize = games.len();
        let mut db: StrMap<GameProfile<P>> = StrMap::new();
        let mut rest = games;
        let mut k: usize = 0;
        while rest.len() > 0
            invariant
                db.wf(),
                filed_by_name(db@),
                k + rest@.len() == all.len(),
                all.len() == n,
                rest@ == all.skip(k as int),
                db@ == games_of(all.take(k as int)),
            decreases rest@.len(),
        {
            let g = rest.remove(0);
            proof {
                assert(all.take(k + 1).drop_last() =~= all.take(k as int));
                assert(all.take(k + 1).last() == g);
                assert(rest@ =~= all.skip(k + 1));
            }
            let key = to_lowercase(g.executable_name.as_str());
            db.insert(key, g);
            k = k + 1;
        }
        proof {
            assert(all.take(all.len() as int) =~= all);
        }
        let d = GameDetector { games_db: db, detected_games: Vec::new(), default_profile, auto_switch_enabled: true };
        proof {
            assert(detected_views(d.detected_games@) =~= Seq::<DetectedGameView>::empty());
        }
        d
    }

    /// The profile recommended for an executable (looked up lower-cased).
    pub fn get_profile_for_game(&self, executable_name: &str) -> (r: Option<P>)
        ensures
            r == self@.profile_for_game(executable_name@),
    {
        let lower = to_lowercase(executable_name);
        match self.games_db.get(lower.as_str()) {
            Some(g) => Some(g.recommended_profile),
            None => None,
        }
    }

    /// Whether battery saver should be recommended while `executable_name`
    /// runs with the battery at `battery_level` %.
    pub fn should_recommend_battery_saver(&self, executable_name: &str, battery_level: u8) -> (r: bool)
        ensures
            r == self@.recommend_battery_saver(executable_name@, battery_level),
    {
        let lower = to_lowercase(executable_name);
        match self.games_db.get(lower.as_str()) {
            Some(g) => g.battery_saver_recommended && battery_level <= g.battery_threshold,
            None => battery_level <= 30,
        }
    }

    pub fn set_auto_switch_enabled(&mut self, enabled: bool)
        requires
            old(self).wf(),
        ensures
            final(self).wf(),
            final(self)@ == (GameDetectorView { auto_switch_enabled: enabled, ..old(self)@ }),
    {
        self.auto_switch_enabled = enabled;
    }

    pub fn is_auto_switch_enabled(&self) -> (r: bool)
        ensures
            r == self@.auto_switch_enabled,
    {
        self.auto_switch_enabled
    }

    /// Adds or replaces a game, filed under its lower-cased executable name.
    pub fn add_game_profile(&mut self, profile: GameProfile<P>)
        requires
            old(self).wf(),
        ensures
            final(self).wf(),
            final(self)@ == old(self)@.add_game_profile(profile),
    {
        let key = to_lowercase(profile.executable_name.as_str());
        self.games_db.insert(key, profile);
    }

    /// Removes the game filed under the lower-cased executable name.
    pub fn remove_game_profile(&mut self, executable_name: &str)
        requires
            old(self).wf(),
        ensures
            final(self).wf(),
            final(self)@ == old(self)@.remove_game_profile(executable_name@),
    {
        let lower = to_lowercase(executable_name);
        self.games_db.remove(lower.as_str());
    }

    /// Every known game, once each.
    pub fn get_all_profiles(&self) -> (r: Vec<GameProfile<P>>)
        requires
            self.wf(),
        ensures
            forall|i: int|
                0 <= i < r@.len() ==> self@.games.contains_key(lower_case((#[trigger] r@[i]).executable_name@))
                    && r@[i] == self@.games[lower_case(r@[i].executable_name@)],
            forall|k: Seq<char>|
                #[trigger] self@.games.contains_key(k) ==> exists|i: int|
                    0 <= i < r@.len() && lower_case(r@[i].executable_name@) == k,
            forall|i: int, j: int|
                0 <= i < j < r@.len() ==> lower_case((#[trigger] r@[i]).executable_name@) != lower_case(
                    (#[trigger] r@[j]).executable_name@,
                ),
    {
        let keys = self.games_db.keys();
        let mut out: Vec<GameProfile<P>> = Vec::new();
        let mut i: usize = 0;
        while i < keys.len()
            invariant
                self.wf(),
                i <= keys@.len(),
                out@.len() == i,
                forall|j: int| 0 <= j < keys@.len() ==> self@.games.contains_key((#[trigger] keys@[j])@),
                forall|j: int| 0 <= j < i ==> lower_case((#[trigger] out@[j]).executable_name@) == keys@[j]@,
                forall|j: int| 0 <= j < i ==> #[trigger] out@[j] == self@.games[keys@[j]@],
            decreases keys@.len() - i,
        {
            proof {
                assert(self@.games.contains_key(keys@[i as int]@));
            }
            let g = copy_profile(self.games_db.get(keys[i].as_str()).unwrap());
            out.push(g);
            i = i + 1;
        }
        proof {
            assert forall|k: Seq<char>| #[trigger] self@.games.contains_key(k) implies exists|a: int|
                0 <= a < out@.len() && lower_case(out@[a].executable_name@) == k by {
                let j = choose|j: int| 0 <= j < keys@.len() && keys@[j]@ == k;
                assert(lower_case(out@[j].executable_name@) == keys@[j]@);
            }
            assert forall|a: int, b: int| 0 <= a < b < out@.len() implies lower_case(
                (#[trigger] out@[a]).executable_name@,
            ) != lower_case((#[trigger] out@[b]).executable_name@) by {
                assert(lower_case(out@[a].executable_name@) == keys@[a]@);
                assert(lower_case(out@[b].executable_name@) == keys@[b]@);
            }
        }
        out
    }

    /// The games currently detected running.
    pub fn get_detected_games(&self) -> (r: &Vec<DetectedGame>)
        ensures
            detected_views(r@) == self@.detected,
    {
        &self.detected_games
    }

    /// Forgets every detected game.
    pub fn clear_detected_games(&mut self)
        requires
            old(self).wf(),
        ensures
            final(self).wf(),
            final(self)@ == (GameDetectorView { detected: Seq::<DetectedGameView>::empty(), ..old(self)@ }),
    {
        self.detected_games = Vec::new();
        proof {
            assert(detected_views(self.detected_games@) =~= Seq::<DetectedGameView>::empty());
        }
    }

    /// A running process `pid` whose executable is `executable_name`, seen
    /// at `now_secs`: a known game (by lower-cased name) is listed as
    /// detected for that process, and its last-played time and play time
    /// advance. Returns whether the executable is a known game.
    pub fn record_running_process(&mut self, pid: u32, executable_name: &str, now_secs: u64) -> (known: bool)
        requires
            old(self).wf(),
        ensures
            final(self).wf(),
            known == old(self)@.games.contains_key(lower_case(executable_name@)),
            final(self)@ == old(self)@.record_running_process(pid, executable_name@, now_secs),
    {
        let lower = to_lowercase(executable_name);
        let found = match self.games_db.get(lower.as_str()) {
            Some(g) => Some(copy_profile(g)),
            None => None,
        };
        match found {
            None => false,
            Some(g) => {
                let d = DetectedGame {
                    game_id: copy_string(&g.game_id),
                    executable_name: copy_string(&lower),
                    game_title: copy_string(&g.game_title),
                    process_id: pid,
                    detected_at: now_secs,
                    profile_applied: true,
                };
                upsert_detected(&mut self.detected_games, d);
                let updated = GameProfile {
                    last_played: Some(now_secs),
                    play_time_seconds: g.play_time_seconds.wrapping_add(1),
                    ..g
                };
                self.games_db.insert(lower, updated);
                true
            },
        }
    }

    /// Keeps only the detected games whose process is among `alive`.
    pub fn retain_running(&mut self, alive: &[u32])
        requires
            old(self).wf(),
        ensures
            final(self).wf(),
            final(self)@ == old(self)@.retain_running(alive@),
    {
        let ghost old_views = detected_views(self.detected_games@);
        let mut kept: Vec<DetectedGame> = Vec::new();
        let ghost mut idx: Seq<int> = Seq::empty();
        let mut i: usize = 0;
        while i < self.detected_games.len()
            invariant
                self.wf(),
                old_views == detected_views(self.detected_games@),
                i <= self.detected_games@.len(),
                detected_views(kept@) == retain_alive(old_views.take(i as int), alive@),
                idx.len() == kept@.len(),
                forall|a: int| 0 <= a < idx.len() ==> 0 <= #[trigger] idx[a] < i && kept@[a]@ == old_views[idx[a]],
                forall|a: int, b: int| 0 <= a < b < idx.len() ==> #[trigger] idx[a] < #[trigger] idx[b],
            decreases self.detected_games@.len() - i,
        {
            proof {
                assert(old_views.take(i + 1).drop_last() =~= old_views.take(i as int));
                assert(old_views.take(i + 1).last() == old_views[i as int]);
            }
            let pid = self.detected_games[i].process_id;
            if contains_u32(alive, pid) {
                let d = copy_detected(&self.detected_games[i]);
                let ghost before = detected_views(kept@);
                kept.push(d);
                proof {
                    idx = idx.push(i as int);
                    assert(detected_views(kept@) =~= before.push(old_views[i as int]));
                }
            }
            i = i + 1;
        }
        proof {
            assert(old_views.take(old_views.len() as int) =~= old_views);
            let kv = detected_views(kept@);
            assert forall|a: int, b: int| 0 <= a < b < kv.len() implies (#[trigger] kv[a]).process_id != (
            #[trigger] kv[b]).process_id by {
                assert(kv[a] == old_views[idx[a]]);
                assert(kv[b] == old_views[idx[b]]);
                assert(idx[a] < idx[b]);
            }
        }
        self.detected_games = kept;
    }

    pub fn set_default_profile(&mut self, profile: P)
        requires
            old(self).wf(),
        ensures
            final(self).wf(),
            final(self)@ == (GameDetectorView { default_profile: profile, ..old(self)@ }),
    {
        self.default_profile = profile;
    }

    pub fn get_default_profile(&self) -> (r: P)
        ensures
            r == self@.default_profile,
    {
        self.default_profile
    }
}



// ---------------------------------------------------------------------------
// Built-in games
// ---------------------------------------------------------------------------

/// One built-in game: id, executable name, title, recommended tuning, AI
/// curve optimisation, battery saver recommendation and its threshold.
pub open spec fn builtin_row(i: int) -> (Seq<char>, Seq<char>, Seq<char>, GameTuning, bool, bool, u8) {
    let fast = GameTuning {
        adaptive_polling: true,
        target_poll_hz: 1000,
        batch_reports: false,
        battery_saver: false,
        ai_curve_optimization: true,
    };
    let batched = GameTuning {
        adaptive_polling: true,
        target_poll_hz: 500,
        batch_reports: true,
        battery_saver: false,
        ai_curve_optimization: true,
    };
    if i == 0 {
        ("apex_legends"@, "apex_legends.exe"@, "Apex Legends"@, fast, true, false, 30)
    } else if i == 1 {
        ("cod_warzone"@, "cod_warzone.exe"@, "Call of Duty: Warzone"@, fast, true, false, 25)
    } else if i == 2 {
        ("elden_ring"@, "eldenring.exe"@, "Elden Ring"@, batched, true, false, 30)
    } else if i == 3 {
        ("fortnite"@, "fortnite.exe"@, "Fortnite"@, fast, true, false, 30)
    } else if i == 4 {
        ("rocket_league"@, "rocketleague.exe"@, "Rocket League"@, fast, true, false, 30)
    } else if i == 5 {
        ("cyberpunk_2077"@, "cyberpunk2077.exe"@, "Cyberpunk 2077"@, batched, true, false, 30)
    } else {
        ("generic_game"@, "*.exe"@, "Generic Game"@, GameTuning { ai_curve_optimization: false, ..batched }, false, true, 30)
    }
}

/// Whether a game profile is the `i`-th built-in game, never played.
pub open spec fn is_builtin(g: GameProfile<GameTuning>, i: int) -> bool {
    let row = builtin_row(i);
    &&& g.game_id@ == row.0
    &&& g.executable_name@ == row.1
    &&& g.game_title@ == row.2
    &&& g.recommended_profile == row.3
    &&& g.ai_curve_optimization == row.4
    &&& g.battery_saver_recommended == row.5
    &&& g.battery_threshold == row.6
    &&& g.icon_path is None
    &&& g.last_played is None
    &&& g.play_time_seconds == 0
}

fn builtin(
    id: &str,
    exe: &str,
    title: &str,
    tuning: GameTuning,
    ai: bool,
    battery_saver: bool,
    threshold: u8,
) -> (g: GameProfile<GameTuning>)
    ensures
        g.game_id@ == id@,
        g.executable_name@ == exe@,
        g.game_title@ == title@,
        g.recommended_profile == tuning,
        g.ai_curve_optimization == ai,
        g.battery_saver_recommended == battery_saver,
        g.battery_threshold == threshold,
        g.icon_path is None,
        g.last_played is None,
        g.play_time_seconds == 0,
{
    GameProfile {
        game_id: id.to_owned(),
        executable_name: exe.to_owned(),
        game_title: title.to_owned(),
        recommended_profile: tuning,
        ai_curve_optimization: ai,
        battery_saver_recommended: battery_saver,
        battery_threshold: threshold,
        icon_path: None,
        last_played: None,
        play_time_seconds: 0,
    }
}

/// The built-in game database: six popular titles and a generic entry
/// (`*.exe`) that recommends battery saver at 30 %.
pub fn builtin_games() -> (r: Vec<GameProfile<GameTuning>>)
    ensures
        r@.len() == 7,
        forall|i: int| 0 <= i < 7 ==> is_builtin(#[trigger] r@[i], i),
{
    let fast = GameTuning {
        adaptive_polling: true,
        target_poll_hz: 1000,
        batch_reports: false,
        battery_saver: false,
        ai_curve_optimization: true,
    };
    let batched = GameTuning {
        adaptive_polling: true,
        target_poll_hz: 500,
        batch_reports: true,
        battery_saver: false,
        ai_curve_optimization: true,
    };
    let generic = GameTuning { ai_curve_optimization: false, ..batched };
    let mut r: Vec<GameProfile<GameTuning>> = Vec::new();
    r.push(builtin("apex_legends", "apex_legends.exe", "Apex Legends", fast, true, false, 30));
    r.push(builtin("cod_warzone", "cod_warzone.exe", "Call of Duty: Warzone", fast, true, false, 25));
    r.push(builtin("elden_ring", "eldenring.exe", "Elden Ring", batched, true, false, 30));
    r.push(builtin("fortnite", "fortnite.exe", "Fortnite", fast, true, false, 30));
    r.push(builtin("rocket_league", "rocketleague.exe", "Rocket League", fast, true, false, 30));
    r.push(builtin("cyberpunk_2077", "cyberpunk2077.exe", "Cyberpunk 2077", batched, true, false, 30));
    r.push(builtin("generic_game", "*.exe", "Generic Game", generic, false, true, 30));
    proof {
        assert forall|i: int| 0 <= i < 7 implies is_builtin(#[trigger] r@[i], i) by {
            if i == 0 {
            } else if i == 1 {
            } else if i == 2 {
            } else if i == 3 {
            } else if i == 4 {
            } else if i == 5 {
            } else {
            }
        }
    }
    r
}

// ---------------------------------------------------------------------------
// Laws
// ---------------------------------------------------------------------------

/// A game just added is what its executable name recommends, and so does
/// any name with the same lower case.
pub proof fn lemma_added_game_found<P>(v: GameDetectorView<P>, p: GameProfile<P>, exe: Seq<char>)
    ensures
        v.add_game_profile(p).profile_for_game(p.executable_name@) == Some(p.recommended_profile),
        lower_case(exe) == lower_case(p.executable_name@) ==> v.add_game_profile(p).profile_for_game(exe) == Some(
            p.recommended_profile,
        ),
{
}

/// A removed game is no longer recommended for, under any casing that
/// lower-cases to the same name.
pub proof fn lemma_removed_game_gone<P>(v: GameDetectorView<P>, exe: Seq<char>, other: Seq<char>)
    requires
        lower_case(other) == lower_case(exe),
    ensures
        v.remove_game_profile(exe).profile_for_game(other) is None,
{
}

/// For an unknown executable, battery saver is recommended exactly at or
/// below 30 %.
pub proof fn lemma_unknown_game_battery_saver<P>(v: GameDetectorView<P>, exe: Seq<char>, battery: u8)
    requires
        !v.games.contains_key(lower_case(exe)),
    ensures
        v.recommend_battery_saver(exe, battery) <==> battery <= 30,
{
}

/// Recording a running known game lists its process exactly once, with the
/// game's id and title (those of its profile) and the time it was seen; an
/// unknown executable changes nothing.
pub proof fn lemma_detected_once<P>(v: GameDetectorView<P>, pid: u32, exe: Seq<char>, now: u64)
    requires
        pids_distinct(v.detected),
    ensures
        pids_distinct(v.record_running_process(pid, exe, now).detected),
        !v.games.contains_key(lower_case(exe)) ==> v.record_running_process(pid, exe, now) == v,
        v.games.contains_key(lower_case(exe)) ==> exists|i: int|
            0 <= i < v.record_running_process(pid, exe, now).detected.len() && {
                let d = #[trigger] v.record_running_process(pid, exe, now).detected[i];
                &&& d.process_id == pid
                &&& d.game_id == v.games[lower_case(exe)].game_id@
                &&& d.game_title == v.games[lower_case(exe)].game_title@
                &&& d.detected_at == now
                &&& d.executable_name == lower_case(exe)
                &&& d.profile_applied
            },
        v.games.contains_key(lower_case(exe)) ==> forall|i: int|
            0 <= i < v.record_running_process(pid, exe, now).detected.len() && (
            #[trigger] v.record_running_process(pid, exe, now).detected[i]).process_id == pid ==> {
                let d = v.record_running_process(pid, exe, now).detected[i];
                &&& d.game_id == v.games[lower_case(exe)].game_id@
                &&& d.game_title == v.games[lower_case(exe)].game_title@
                &&& d.detected_at == now
            },
{
    let k = lower_case(exe);
    if v.games.contains_key(k) {
        let g = v.games[k];
        let d = DetectedGameView {
            game_id: g.game_id@,
            executable_name: k,
            game_title: g.game_title@,
            process_id: pid,
            detected_at: now,
            profile_applied: true,
        };
        let s = v.detected;
        let r = upsert_by_pid(s, d);
        if exists|i: int| 0 <= i < s.len() && (#[trigger] s[i]).process_id == d.process_id {
            let c = choose|i: int| 0 <= i < s.len() && (#[trigger] s[i]).process_id == d.process_id;
            assert(r == s.update(c, d));
            assert(r[c] == d);
            assert forall|a: int, b: int| 0 <= a < b < r.len() implies (#[trigger] r[a]).process_id != (
            #[trigger] r[b]).process_id by {
                if a != c && b != c {
                    assert(s[a].process_id != s[b].process_id);
                } else if a == c {
                    assert(s[c].process_id != s[b].process_id);
                } else {
                    assert(s[a].process_id != s[c].process_id);
                }
            }
        } else {
            assert(r == s.push(d));
            assert(r[s.len() as int] == d);
            assert forall|a: int, b: int| 0 <= a < b < r.len() implies (#[trigger] r[a]).process_id != (
            #[trigger] r[b]).process_id by {
                if b < s.len() {
                    assert(s[a].process_id != s[b].process_id);
                } else {
                    assert(r[a] == s[a]);
                }
            }
        }
    }
}

/// After pruning, every detected game runs in a process that is alive.
pub proof fn lemma_retained_are_alive(s: Seq<DetectedGameView>, alive: Seq<u32>)
    ensures
        forall|i: int| 0 <= i < retain_alive(s, alive).len() ==> alive.contains(
            (#[trigger] retain_alive(s, alive)[i]).process_id,
        ),
    decreases s.len(),
{
    if s.len() > 0 {
        lemma_retained_are_alive(s.drop_last(), alive);
        let prev = retain_alive(s.drop_last(), alive);
        let cur = retain_alive(s, alive);
        assert forall|i: int| 0 <= i < cur.len() implies alive.contains((#[trigger] cur[i]).process_id) by {
            if i < prev.len() {
                assert(cur[i] == prev[i]);
            } else {
                assert(cur[i] == s.last());
            }
        }
    }
}

} // verus!
