use vstd::prelude::*;
use crate::discovery::opt_chars;
use crate::strmap::StrMap;

verus! {

/// The state of the mouse driver: its profiles (`P`) by id, the active
/// profile's id and whether the daemon runs.
pub struct MouseDriverView<P> {
    pub profiles: Map<Seq<char>, P>,
    pub active: Option<Seq<char>>,
    pub running: bool,
}

impl<P> MouseDriverView<P> {
    /// The profile reports are processed with: the active one, when it is
    /// loaded.
    pub open spec fn active_profile(self) -> Option<P> {
        if self.active is Some && self.profiles.contains_key(self.active->0) {
            Some(self.profiles[self.active->0])
        } else {
            None
        }
    }

    pub open spec fn load_profile(self, id: Seq<char>, p: P) -> Self {
        MouseDriverView { profiles: self.profiles.insert(id, p), ..self }
    }

    pub open spec fn activate_profile(self, id: Seq<char>) -> Self {
        MouseDriverView { active: Some(id), ..self }
    }
}

/// Profile registry and run state of the native mouse driver.
#[verifier::reject_recursive_types(P)]
pub struct MouseDriver<P> {
    profiles: StrMap<P>,
    active_profile_id: Option<String>,
    running: bool,
}

impl<P> View for MouseDriver<P> {
    type V = MouseDriverView<P>;

    closed spec fn view(&self) -> MouseDriverView<P> {
        MouseDriverView {
            profiles: self.profiles@,
            active: opt_chars(self.active_profile_id),
            running: self.running,
        }
    }
}

impl<P> MouseDriver<P> {
    pub closed spec fn wf(&self) -> bool {
        self.profiles.wf()
    }

    /// A stopped driver with no profiles and none active.
    pub fn new() -> (d: Self)
        ensures
            d.wf(),
            d@ == (MouseDriverView::<P> { profiles: Map::empty(), active: None, running: false }),
    {
        MouseDriver { profiles: StrMap::new(), active_profile_id: None, running: false }
    }

    /// Stores a parsed profile under its id (replacing one with that id).
    pub fn load_profile(&mut self, id: String, profile: P)
        requires
            old(self).wf(),
        ensures
            final(self).wf(),
            final(self)@ == old(self)@.load_profile(id@, profile),
    {
        self.profiles.insert(id, profile);
    }

    /// Makes `profile_id` the active profile (loaded or not).
    pub fn activate_profile(&mut self, profile_id: &str) -> (r: Result<(), String>)
        requires
            old(self).wf(),
        ensures
            final(self).wf(),
            r is Ok,
            final(self)@ == old(self)@.activate_profile(profile_id@),
    {
        self.active_profile_id = Some(profile_id.to_owned());
        Ok(())
    }

    /// The profile reports are processed with: the active one, when it is
    /// loaded; `None` means reports pass through unchanged.
    pub fn active_profile(&self) -> (r: Option<&P>)
        requires
            self.wf(),
        ensures
            match r {
                Some(p) => self@.active_profile() == Some(*p),
                None => self@.active_profile() is None,
            },
    {
        match &self.active_profile_id {
            Some(id) => self.profiles.get(id.as_str()),
            None => None,
        }
    }

    /// The profile stored under `id`, if any.
    pub fn profile(&self, id: &str) -> (r: Option<&P>)
        ensures
            match r {
                Some(p) => self@.profiles.contains_key(id@) && *p == self@.profiles[id@],
                None => !self@.profiles.contains_key(id@),
            },
    {
        self.profiles.get(id)
    }

    /// The ids of every stored profile, once each.
    pub fn profile_ids(&self) -> (r: Vec<String>)
        requires
            self.wf(),
        ensures
            forall|i: int| 0 <= i < r@.len() ==> self@.profiles.contains_key((#[trigger] r@[i])@),
            forall|k: Seq<char>|
                #[trigger] self@.profiles.contains_key(k) ==> exists|i: int| 0 <= i < r@.len() && r@[i]@ == k,
            forall|i: int, j: int| 0 <= i < j < r@.len() ==> (#[trigger] r@[i])@ != (#[trigger] r@[j])@,
    {
        self.profiles.keys()
    }

    pub fn is_running(&self) -> (r: bool)
        ensures
            r == self@.running,
    {
        self.running
    }

    /// Starts the driver daemon.
    pub fn start(&mut self) -> (r: Result<(), String>)
        requires
            old(self).wf(),
        ensures
            final(self).wf(),
            r is Ok,
            final(self)@ == (MouseDriverView { running: true, ..old(self)@ }),
    {
        self.running = true;
        Ok(())
    }

    /// Stops the driver daemon.
    pub fn stop(&mut self)
        requires
            old(self).wf(),
        ensures
            final(self).wf(),
            final(self)@ == (MouseDriverView { running: false, ..old(self)@ }),
    {
        self.running = false;
    }
}

/// A loaded and activated profile is the one reports are processed with,
/// until another profile is activated or loaded under the same id.
pub proof fn lemma_activated_profile_applies<P>(v: MouseDriverView<P>, id: Seq<char>, p: P)
    ensures
        v.load_profile(id, p).activate_profile(id).active_profile() == Some(p),
        v.activate_profile(id).load_profile(id, p).active_profile() == Some(p),
{
}

/// Activating an id with no loaded profile leaves reports unprocessed.
pub proof fn lemma_unknown_profile_passes_through<P>(v: MouseDriverView<P>, id: Seq<char>)
    requires
        !v.profiles.contains_key(id),
    ensures
        v.activate_profile(id).active_profile() is None,
{
}

} // verus!
