//! Profiles of event-to-pattern mappings, and the choice of the active profile
//! from the kind of vehicle the player is in.
//!
//! What a profile maps events to is carried without being looked at: the type
//! parameter `M`.
use vstd::prelude::*;

use crate::wt_telemetry::{str_eq, VehicleType};

verus! {

/// The game mode a profile is meant for.
#[derive(Debug, Clone, Copy, PartialEq, Eq, Structural)]
pub enum GameMode {
    Arcade,
    Realistic,
    Simulator,
    Any,
}

/// A profile: the patterns played for events, for one kind of vehicle
/// (`Unknown` for every kind).
pub struct Profile<M> {
    pub id: String,
    pub name: String,
    pub vehicle_type: VehicleType,
    pub game_mode: GameMode,
    pub event_mappings: M,
    pub enabled: bool,
}

/// The last of the first `n` profiles that is enabled and made for exactly
/// `vt`.
pub open spec fn last_for_type<M>(ps: Seq<Profile<M>>, vt: VehicleType, n: int) -> Option<int>
    decreases n,
{
    if n <= 0 {
        None
    } else if ps[n - 1].enabled && ps[n - 1].vehicle_type == vt {
        Some(n - 1)
    } else {
        last_for_type(ps, vt, n - 1)
    }
}

/// The profile chosen for `vt`: the last enabled profile made for exactly `vt`,
/// else the last enabled profile made for every kind.
pub open spec fn best_profile<M>(ps: Seq<Profile<M>>, vt: VehicleType) -> Option<int> {
    match last_for_type(ps, vt, ps.len() as int) {
        Some(i) => Some(i),
        None => last_for_type(ps, VehicleType::Unknown, ps.len() as int),
    }
}

/// The first profile at or after `s` with id `id`.
pub open spec fn profile_from<M>(ps: Seq<Profile<M>>, id: Seq<char>, s: int) -> Option<int>
    decreases ps.len() - s,
{
    if s < 0 || s >= ps.len() {
        None
    } else if ps[s].id@ == id {
        Some(s)
    } else {
        profile_from(ps, id, s + 1)
    }
}

/// The profiles without those with id `id`, in order.
pub open spec fn without_profile<M>(ps: Seq<Profile<M>>, id: Seq<char>) -> Seq<Profile<M>>
    decreases ps.len(),
{
    if ps.len() == 0 {
        ps
    } else {
        let rest = without_profile(ps.drop_first(), id);
        if ps[0].id@ == id {
            rest
        } else {
            seq![ps[0]] + rest
        }
    }
}

/// The profiles and the id of the active one.
pub struct ProfileManager<M> {
    profiles: Vec<Profile<M>>,
    active_profile: Option<String>,
}

impl<M> ProfileManager<M> {
    /// The profiles, in order.
    pub closed spec fn profiles(&self) -> Seq<Profile<M>> {
        self.profiles@
    }

    /// The id of the active profile.
    pub closed spec fn active_id(&self) -> Option<Seq<char>> {
        match self.active_profile {
            Some(s) => Some(s@),
            None => None,
        }
    }

    /// No profiles, none active.
    pub fn new() -> (r: Self)
        ensures
            r.profiles() == Seq::<Profile<M>>::empty(),
            r.active_id() is None,
    {
        ProfileManager { profiles: Vec::new(), active_profile: None }
    }

    fn last_for(&self, vt: VehicleType) -> (r: Option<usize>)
        ensures
            match r {
                Some(i) => i < self.profiles().len() && last_for_type(
                    self.profiles(),
                    vt,
                    self.profiles().len() as int,
                ) == Some(i as int),
                None => last_for_type(self.profiles(), vt, self.profiles().len() as int) is None,
            },
    {
        let mut k = self.profiles.len();
        while k > 0
            invariant
                k <= self.profiles@.len(),
                last_for_type(self.profiles@, vt, self.profiles@.len() as int) == last_for_type(
                    self.profiles@,
                    vt,
                    k as int,
                ),
            decreases k,
        {
            if self.profiles[k - 1].enabled && self.profiles[k - 1].vehicle_type == vt {
                return Some(k - 1);
            }
            k = k - 1;
        }
        None
    }

    /// Chooses the profile for the player's vehicle and makes it active: the last
    /// enabled profile made for exactly this kind, else the last enabled one made
    /// for every kind. Returns its position; when there is none, nothing changes.
    pub fn auto_select_profile(&mut self, vehicle_type: &VehicleType) -> (r: Option<usize>)
        ensures
            final(self).profiles() == old(self).profiles(),
            match r {
                Some(i) => best_profile(old(self).profiles(), *vehicle_type) == Some(i as int)
                    && i < old(self).profiles().len() && final(self).active_id() == Some(
                    old(self).profiles()[i as int].id@,
                ),
                None => best_profile(old(self).profiles(), *vehicle_type) is None
                    && final(self).active_id() == old(self).active_id(),
            },
    {
        let vt = *vehicle_type;
        let best = match self.last_for(vt) {
            Some(i) => Some(i),
            None => self.last_for(VehicleType::Unknown),
        };
        if let Some(i) = best {
            self.active_profile = Some(self.profiles[i].id.clone());
        }
        best
    }

    /// The active profile, when its id belongs to a profile (the first with it).
    pub fn get_active_profile(&self) -> (r: Option<&Profile<M>>)
        ensures
            match self.active_id() {
                Some(id) => match profile_from(self.profiles(), id, 0) {
                    Some(i) => r == Some(&self.profiles()[i]),
                    None => r is None,
                },
                None => r is None,
            },
    {
        match &self.active_profile {
            None => None,
            Some(id) => {
                let n = self.profiles.len();
                let mut k: usize = 0;
                while k < n
                    invariant
                        n == self.profiles@.len(),
                        k <= n,
                        self.active_id() == Some(id@),
                        profile_from(self.profiles@, id@, 0) == profile_from(
                            self.profiles@,
                            id@,
                            k as int,
                        ),
                    decreases n - k,
                {
                    if str_eq(self.profiles[k].id.as_str(), id.as_str()) {
                        assert(profile_from(self.profiles@, id@, k as int) == Some(k as int));
                        return Some(&self.profiles[k]);
                    }
                    k = k + 1;
                }
                None
            },
        }
    }

    /// The profiles.
    pub fn get_all_profiles(&self) -> (r: &Vec<Profile<M>>)
        ensures
            r@ == self.profiles(),
    {
        &self.profiles
    }

    /// Adds a profile at the end.
    pub fn add_profile(&mut self, profile: Profile<M>)
        ensures
            final(self).profiles() == old(self).profiles().push(profile),
            final(self).active_id() == old(self).active_id(),
    {
        self.profiles.push(profile);
    }

    /// Removes every profile with id `id`; the active profile is cleared when it
    /// had that id.
    pub fn remove_profile(&mut self, id: &str)
        ensures
            final(self).profiles() == without_profile(old(self).profiles(), id@),
            final(self).active_id() == (if old(self).active_id() == Some(id@) {
                None
            } else {
                old(self).active_id()
            }),
    {
        let ghost target = without_profile(self.profiles@, id@);
        let mut rest: Vec<Profile<M>> = Vec::new();
        std::mem::swap(&mut rest, &mut self.profiles);
        while rest.len() > 0
            invariant
                self.profiles@ + without_profile(rest@, id@) == target,
                self.active_profile == old(self).active_profile,
            decreases rest.len(),
        {
            let ghost r0 = rest@;
            let ghost kept = self.profiles@;
            let p = rest.remove(0);
            assert(rest@ =~= r0.drop_first());
            if !str_eq(p.id.as_str(), id) {
                self.profiles.push(p);
                assert(kept.push(r0[0]) + without_profile(rest@, id@) =~= kept + (seq![r0[0]]
                    + without_profile(rest@, id@)));
            }
        }
        assert(self.profiles@ + without_profile(rest@, id@) =~= self.profiles@);
        let clear = match &self.active_profile {
            Some(a) => str_eq(a.as_str(), id),
            None => false,
        };
        if clear {
            self.active_profile = None;
        }
    }

    /// Switches the first profile with id `id` on or off; nothing happens when
    /// there is none.
    pub fn toggle_profile(&mut self, id: &str, enabled: bool)
        ensures
            final(self).active_id() == old(self).active_id(),
            final(self).profiles() == match profile_from(old(self).profiles(), id@, 0) {
                Some(i) => old(self).profiles().update(
                    i,
                    Profile { enabled: enabled, ..old(self).profiles()[i] },
                ),
                None => old(self).profiles(),
            },
    {
        let n = self.profiles.len();
        let mut k: usize = 0;
        while k < n
            invariant
                n == self.profiles@.len(),
                k <= n,
                self.profiles@ == old(self).profiles@,
                self.active_profile == old(self).active_profile,
                profile_from(self.profiles@, id@, 0) == profile_from(self.profiles@, id@, k as int),
            decreases n - k,
        {
            if str_eq(self.profiles[k].id.as_str(), id) {
                self.profiles[k].enabled = enabled;
                return;
            }
            k = k + 1;
        }
    }
}

/// An exact match is preferred: when an enabled profile is made for exactly the
/// player's kind of vehicle, the chosen profile is one of those; otherwise the
/// chosen profile, if any, is an enabled profile made for every kind.
pub proof fn law_auto_select_prefers_exact<M>(ps: Seq<Profile<M>>, vt: VehicleType)
    ensures
        best_profile(ps, vt) matches Some(i) ==> 0 <= i < ps.len() && ps[i].enabled && (
        ps[i].vehicle_type == vt || ps[i].vehicle_type == VehicleType::Unknown),
        (exists|j: int| 0 <= j < ps.len() && ps[j].enabled && ps[j].vehicle_type == vt) ==> (
        best_profile(ps, vt) matches Some(i) && ps[i].vehicle_type == vt),
{
    lemma_last_for_type(ps, vt, ps.len() as int);
    lemma_last_for_type(ps, VehicleType::Unknown, ps.len() as int);
}

proof fn lemma_last_for_type<M>(ps: Seq<Profile<M>>, vt: VehicleType, n: int)
    requires
        n <= ps.len(),
    ensures
        last_for_type(ps, vt, n) matches Some(i) ==> 0 <= i < n && ps[i].enabled
            && ps[i].vehicle_type == vt,
        last_for_type(ps, vt, n) is None ==> forall|j: int|
            0 <= j < n ==> !(#[trigger] ps[j].enabled && ps[j].vehicle_type == vt),
    decreases n,
{
    if n > 0 {
        lemma_last_for_type(ps, vt, n - 1);
    }
}

} // verus!
