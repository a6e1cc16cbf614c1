//! The profile store: the ordered list of profiles and the active one.
//!
//! The store is never empty, every profile in it is valid and names are
//! distinct. Persistence happens outside: after every successful mutation
//! the caller rewrites the backing file with [`ProfileManager::get_profiles`].

use vstd::prelude::*;
use crate::profile::{Profile, ProfileError, ProfileView, profile_check, default_profile_view};
use crate::text::{lower_of, lowercase, contains_text, seq_contains};

verus! {

pub open spec fn all_valid(ps: Seq<ProfileView>) -> bool {
    forall|i: int| 0 <= i < ps.len() ==> (#[trigger] profile_check(ps[i])) is Ok
}

pub open spec fn names_unique(ps: Seq<ProfileView>) -> bool {
    forall|i: int, j: int| 0 <= i < j < ps.len() ==> #[trigger] ps[i].name != #[trigger] ps[j].name
}

/// Some profile of `ps` other than the one at `skip` is called `name`.
pub open spec fn name_taken(ps: Seq<ProfileView>, name: Seq<char>, skip: int) -> bool {
    exists|k: int| 0 <= k < ps.len() && k != skip && (#[trigger] ps[k]).name == name
}

/// The validation error of the first invalid profile at position `i` or later.
pub open spec fn first_profile_error(ps: Seq<ProfileView>, i: int) -> Option<ProfileError>
    decreases ps.len() - i,
{
    if i < 0 || i >= ps.len() {
        None
    } else {
        match profile_check(ps[i]) {
            Err(e) => Some(e),
            Ok(_) => first_profile_error(ps, i + 1),
        }
    }
}

/// How many profiles of `ps` are flagged default.
pub open spec fn default_count(ps: Seq<ProfileView>) -> nat
    decreases ps.len(),
{
    if ps.len() == 0 {
        0
    } else {
        default_count(ps.drop_last()) + if ps.last().is_default {
            1nat
        } else {
            0nat
        }
    }
}

/// The verdict on a loaded list: the first invalid profile's error, else
/// `DuplicateName` when two profiles share a name, else
/// `NotExactlyOneDefault` when a non-empty list does not hold exactly one
/// default profile.
pub open spec fn load_check(ps: Seq<ProfileView>) -> Result<(), ProfileError> {
    match first_profile_error(ps, 0) {
        Some(e) => Err(e),
        None => if !names_unique(ps) {
            Err(ProfileError::DuplicateName)
        } else if ps.len() > 0 && default_count(ps) != 1 {
            Err(ProfileError::NotExactlyOneDefault)
        } else {
            Ok(())
        },
    }
}

/// Profile `p` switches on for the application `app`: auto-switching is on
/// and one trigger occurs in the application name, both case-folded.
pub open spec fn profile_matches_app(p: ProfileView, app: Seq<char>) -> bool {
    p.auto_switch_enabled && exists|j: int|
        0 <= j < p.trigger_apps.len() && seq_contains(
            lower_of(app),
            lower_of(#[trigger] p.trigger_apps[j]),
        )
}

pub ghost struct ProfileManagerView {
    pub profiles: Seq<ProfileView>,
    pub active: int,
}

/// `add`: a valid profile, not flagged default, with a new name is
/// appended; otherwise the validation error, `NotExactlyOneDefault` or
/// `DuplicateName`, and no change.
pub open spec fn add_spec(s: ProfileManagerView, p: ProfileView) -> (
    Result<(), ProfileError>,
    ProfileManagerView,
) {
    if profile_check(p) is Err {
        (profile_check(p), s)
    } else if p.is_default {
        (Err(ProfileError::NotExactlyOneDefault), s)
    } else if name_taken(s.profiles, p.name, -1) {
        (Err(ProfileError::DuplicateName), s)
    } else {
        (Ok(()), ProfileManagerView { profiles: s.profiles.push(p), ..s })
    }
}

/// `update`: the profile at `index` is replaced by a valid one with the same
/// default flag and a name no other profile has; otherwise an error and no
/// change.
pub open spec fn update_spec(s: ProfileManagerView, index: int, p: ProfileView) -> (
    Result<(), ProfileError>,
    ProfileManagerView,
) {
    if index < 0 || index >= s.profiles.len() {
        (Err(ProfileError::IndexOutOfBounds), s)
    } else if profile_check(p) is Err {
        (profile_check(p), s)
    } else if p.is_default != s.profiles[index].is_default {
        (Err(ProfileError::NotExactlyOneDefault), s)
    } else if name_taken(s.profiles, p.name, index) {
        (Err(ProfileError::DuplicateName), s)
    } else {
        (Ok(()), ProfileManagerView { profiles: s.profiles.update(index, p), ..s })
    }
}

/// `delete`: the profile at `index` goes unless it is the default one; the
/// active index returns to 0 when it falls past the end.
pub open spec fn delete_spec(s: ProfileManagerView, index: int) -> (
    Result<(), ProfileError>,
    ProfileManagerView,
) {
    if index < 0 || index >= s.profiles.len() {
        (Err(ProfileError::IndexOutOfBounds), s)
    } else if s.profiles[index].is_default {
        (Err(ProfileError::CannotDeleteDefault), s)
    } else {
        let ps = s.profiles.remove(index);
        (
            Ok(()),
            ProfileManagerView {
                profiles: ps,
                active: if s.active < ps.len() {
                    s.active
                } else {
                    0
                },
            },
        )
    }
}

/// `set_active`: bounds-checked, nothing else.
pub open spec fn set_active_spec(s: ProfileManagerView, index: int) -> (
    Result<(), ProfileError>,
    ProfileManagerView,
) {
    if index < 0 || index >= s.profiles.len() {
        (Err(ProfileError::IndexOutOfBounds), s)
    } else {
        (Ok(()), ProfileManagerView { active: index, ..s })
    }
}

/// The ordered profiles and the index of the active one.
pub struct ProfileManager {
    profiles: Vec<Profile>,
    active_profile_index: usize,
}

impl View for ProfileManager {
    type V = ProfileManagerView;

    closed spec fn view(&self) -> ProfileManagerView {
        ProfileManagerView {
            profiles: self.profiles@.map_values(|p: Profile| p@),
            active: self.active_profile_index as int,
        }
    }
}

pub open spec fn store_wf(s: ProfileManagerView) -> bool {
    &&& s.profiles.len() > 0
    &&& 0 <= s.active < s.profiles.len()
    &&& all_valid(s.profiles)
    &&& names_unique(s.profiles)
    &&& default_count(s.profiles) == 1
}

impl ProfileManager {
    /// Never empty, active index in range, every profile valid, names distinct.
    pub open spec fn wf(&self) -> bool {
        store_wf(self@)
    }

    proof fn lemma_view_index(&self, i: int)
        requires
            0 <= i < self.profiles@.len(),
        ensures
            self@.profiles[i] == self.profiles@[i]@,
            self@.profiles.len() == self.profiles@.len(),
    {
    }

    /// A store holding the default profile alone, active.
    pub fn new() -> (r: ProfileManager)
        ensures
            r@.profiles == seq![default_profile_view()],
            r@.active == 0,
            r.wf(),
    {
        let mut profiles: Vec<Profile> = Vec::new();
        profiles.push(Profile::default_profile());
        let r = ProfileManager { profiles, active_profile_index: 0 };
        assert(r@.profiles =~= seq![default_profile_view()]);
        assert(r@.profiles.drop_last() =~= Seq::<ProfileView>::empty());
        assert(r@.profiles.last().is_default);
        assert(default_count(r@.profiles.drop_last()) == 0);
        assert(default_count(r@.profiles) == 1);
        r
    }

    /// Replaces the profiles with the ones loaded from the backing file,
    /// after checking all of them; on an error the store is unchanged. An
    /// empty list leaves the default profile alone in the store. The active
    /// index is kept when it is still in range, else reset to 0.
    pub fn load_profiles(&mut self, loaded: Vec<Profile>) -> (r: Result<(), ProfileError>)
        requires
            old(self).wf(),
        ensures
            final(self).wf(),
            r == load_check(loaded@.map_values(|p: Profile| p@)),
            r is Err ==> final(self)@ == old(self)@,
            r is Ok && loaded@.len() == 0 ==> final(self)@.profiles == seq![default_profile_view()],
            r is Ok && loaded@.len() > 0 ==> final(self)@.profiles == loaded@.map_values(
                |p: Profile| p@,
            ),
            r is Ok ==> final(self)@.active == (if old(self)@.active < final(self)@.profiles.len() {
                old(self)@.active
            } else {
                0
            }),
    {
        let ghost ps = loaded@.map_values(|p: Profile| p@);
        let mut i: usize = 0;
        while i < loaded.len()
            invariant
                ps == loaded@.map_values(|p: Profile| p@),
                self@ == old(self)@,
                old(self).wf(),
                i <= loaded@.len(),
                first_profile_error(ps, 0) == first_profile_error(ps, i as int),
            decreases loaded@.len() - i,
        {
            assert(ps[i as int] == loaded@[i as int]@);
            match loaded[i].validate() {
                Err(e) => {
                    return Err(e);
                },
                Ok(()) => {},
            }
            i = i + 1;
        }
        proof {
            lemma_profiles_valid_from(ps, 0);
        }
        let mut a: usize = 0;
        while a < loaded.len()
            invariant
                ps == loaded@.map_values(|p: Profile| p@),
                self@ == old(self)@,
                old(self).wf(),
                a <= loaded@.len(),
                first_profile_error(ps, 0) is None,
                forall|x: int, y: int|
                    0 <= x < a && x < y < ps.len() ==> #[trigger] ps[x].name != #[trigger] ps[y].name,
            decreases loaded@.len() - a,
        {
            let mut b: usize = a + 1;
            while b < loaded.len()
                invariant
                    ps == loaded@.map_values(|p: Profile| p@),
                    self@ == old(self)@,
                    old(self).wf(),
                    a < loaded@.len(),
                    a < b <= loaded@.len(),
                    first_profile_error(ps, 0) is None,
                    forall|x: int, y: int|
                        0 <= x < a && x < y < ps.len() ==> #[trigger] ps[x].name
                            != #[trigger] ps[y].name,
                    forall|y: int| a < y < b ==> ps[a as int].name != #[trigger] ps[y].name,
                decreases loaded@.len() - b,
            {
                assert(ps[a as int] == loaded@[a as int]@);
                assert(ps[b as int] == loaded@[b as int]@);
                if loaded[a].name == loaded[b].name {
                    assert(ps[a as int].name == ps[b as int].name);
                    assert(!names_unique(ps));
                    return Err(ProfileError::DuplicateName);
                }
                b = b + 1;
            }
            a = a + 1;
        }
        if loaded.len() == 0 {
            *self = ProfileManager::new();
            return Ok(());
        }
        let mut defaults: usize = 0;
        let mut k: usize = 0;
        while k < loaded.len()
            invariant
                ps == loaded@.map_values(|p: Profile| p@),
                k <= loaded@.len(),
                defaults == default_count(ps.take(k as int)),
                defaults <= k,
            decreases loaded@.len() - k,
        {
            assert(ps.take(k as int + 1).drop_last() =~= ps.take(k as int));
            assert(ps.take(k as int + 1).last() == loaded@[k as int]@);
            if loaded[k].is_default {
                defaults = defaults + 1;
            }
            k = k + 1;
        }
        assert(ps.take(k as int) =~= ps);
        if defaults != 1 {
            return Err(ProfileError::NotExactlyOneDefault);
        }
        let n = loaded.len();
        self.profiles = loaded;
        if self.active_profile_index >= n {
            self.active_profile_index = 0;
        }
        proof {
            lemma_profiles_valid_from(ps, 0);
        }
        Ok(())
    }

    /// Appends a valid profile, not flagged default, whose name is not yet
    /// taken; otherwise fails and changes nothing.
    pub fn add_profile(&mut self, profile: Profile) -> (r: Result<(), ProfileError>)
        requires
            old(self).wf(),
        ensures
            final(self).wf(),
            (r, final(self)@) == add_spec(old(self)@, profile@),
    {
        match profile.validate() {
            Err(e) => {
                return Err(e);
            },
            Ok(()) => {},
        }
        if profile.is_default {
            return Err(ProfileError::NotExactlyOneDefault);
        }
        match self.position_of_name(&profile.name, None) {
            Some(_) => {
                return Err(ProfileError::DuplicateName);
            },
            None => {},
        }
        let ghost before = self@;
        self.profiles.push(profile);
        proof {
            assert(self@.profiles =~= before.profiles.push(profile@));
            assert(self@.profiles.drop_last() =~= before.profiles);
        }
        Ok(())
    }

    /// Replaces the profile at `index` by a valid one with the same default
    /// flag and a name no other profile has; otherwise fails and changes
    /// nothing.
    pub fn update_profile(&mut self, index: usize, profile: Profile) -> (r: Result<(), ProfileError>)
        requires
            old(self).wf(),
        ensures
            final(self).wf(),
            (r, final(self)@) == update_spec(old(self)@, index as int, profile@),
    {
        if index >= self.profiles.len() {
            return Err(ProfileError::IndexOutOfBounds);
        }
        match profile.validate() {
            Err(e) => {
                return Err(e);
            },
            Ok(()) => {},
        }
        proof {
            self.lemma_view_index(index as int);
        }
        if profile.is_default != self.profiles[index].is_default {
            return Err(ProfileError::NotExactlyOneDefault);
        }
        match self.position_of_name(&profile.name, Some(index)) {
            Some(_) => {
                return Err(ProfileError::DuplicateName);
            },
            None => {},
        }
        let ghost before = self@;
        self.profiles.set(index, profile);
        proof {
            assert(self@.profiles =~= before.profiles.update(index as int, profile@));
            lemma_count_update(before.profiles, index as int, profile@);
            let ps = self@.profiles;
            assert forall|i: int, j: int| 0 <= i < j < ps.len() implies #[trigger] ps[i].name
                != #[trigger] ps[j].name by {
                if i == index {
                    assert(before.profiles[j].name == ps[j].name);
                } else if j == index {
                    assert(before.profiles[i].name == ps[i].name);
                }
            }
        }
        Ok(())
    }

    /// Removes the profile at `index` unless it is the default one. The active
    /// index returns to 0 when it falls past the end. The default profile
    /// stays, so the store never becomes empty.
    pub fn delete_profile(&mut self, index: usize) -> (r: Result<(), ProfileError>)
        requires
            old(self).wf(),
        ensures
            final(self).wf(),
            (r, final(self)@) == delete_spec(old(self)@, index as int),
    {
        if index >= self.profiles.len() {
            return Err(ProfileError::IndexOutOfBounds);
        }
        proof {
            self.lemma_view_index(index as int);
        }
        if self.profiles[index].is_default {
            return Err(ProfileError::CannotDeleteDefault);
        }
        let ghost before = self@;
        proof {
            lemma_count_remove(before.profiles, index as int);
            lemma_count_nonempty(before.profiles.remove(index as int));
        }
        self.profiles.remove(index);
        if self.active_profile_index >= self.profiles.len() {
            self.active_profile_index = 0;
        }
        proof {
            assert(self@.profiles =~= before.profiles.remove(index as int));
            let ps = self@.profiles;
            assert forall|i: int| 0 <= i < ps.len() implies (#[trigger] profile_check(
                ps[i],
            )) is Ok by {
                if i < index {
                    assert(ps[i] == before.profiles[i]);
                } else {
                    assert(ps[i] == before.profiles[i + 1]);
                }
            }
            assert forall|i: int, j: int| 0 <= i < j < ps.len() implies #[trigger] ps[i].name
                != #[trigger] ps[j].name by {
                let bi = if i < index { i } else { i + 1 };
                let bj = if j < index { j } else { j + 1 };
                assert(ps[i] == before.profiles[bi]);
                assert(ps[j] == before.profiles[bj]);
            }
        }
        Ok(())
    }

    /// Makes the profile at `index` the active one; does not touch hardware.
    pub fn set_active_profile(&mut self, index: usize) -> (r: Result<(), ProfileError>)
        requires
            old(self).wf(),
        ensures
            final(self).wf(),
            (r, final(self)@) == set_active_spec(old(self)@, index as int),
    {
        if index >= self.profiles.len() {
            return Err(ProfileError::IndexOutOfBounds);
        }
        self.active_profile_index = index;
        Ok(())
    }

    pub fn get_active_profile(&self) -> (r: &Profile)
        requires
            self.wf(),
        ensures
            r@ == self@.profiles[self@.active],
            r.is_valid(),
    {
        proof {
            self.lemma_view_index(self.active_profile_index as int);
        }
        &self.profiles[self.active_profile_index]
    }

    pub fn get_active_index(&self) -> (r: usize)
        ensures
            r == self@.active,
    {
        self.active_profile_index
    }

    pub fn get_profiles(&self) -> (r: &Vec<Profile>)
        ensures
            r@.map_values(|p: Profile| p@) == self@.profiles,
    {
        &self.profiles
    }

    /// Position of the profile called `name`, ignoring position `skip`.
    pub fn position_of_name(&self, name: &String, skip: Option<usize>) -> (r: Option<usize>)
        ensures
            r is None <==> !name_taken(
                self@.profiles,
                name@,
                match skip {
                    Some(s) => s as int,
                    None => -1,
                },
            ),
            r matches Some(k) ==> k < self@.profiles.len() && self@.profiles[k as int].name
                == name@ && skip != Some(k),
    {
        let ghost sk: int = match skip {
            Some(s) => s as int,
            None => -1,
        };
        let mut k: usize = 0;
        while k < self.profiles.len()
            invariant
                k <= self.profiles@.len(),
                self@.profiles.len() == self.profiles@.len(),
                sk == match skip {
                    Some(s) => s as int,
                    None => -1,
                },
                forall|j: int| 0 <= j < k && j != sk ==> (#[trigger] self@.profiles[j]).name != name@,
            decreases self.profiles@.len() - k,
        {
            proof {
                self.lemma_view_index(k as int);
            }
            let skipped = match skip {
                Some(s) => s == k,
                None => false,
            };
            if !skipped && self.profiles[k].name == *name {
                return Some(k);
            }
            k = k + 1;
        }
        None
    }

    /// Index of the first profile that auto-switches for `app_name`: one with
    /// auto-switching on and a trigger that occurs in the name, case-insensitively.
    pub fn find_profile_for_app(&self, app_name: &str) -> (r: Option<usize>)
        ensures
            match r {
                Some(i) => i < self@.profiles.len() && profile_matches_app(
                    self@.profiles[i as int],
                    app_name@,
                ) && forall|k: int|
                    0 <= k < i ==> !profile_matches_app(#[trigger] self@.profiles[k], app_name@),
                None => forall|k: int|
                    0 <= k < self@.profiles.len() ==> !profile_matches_app(
                        #[trigger] self@.profiles[k],
                        app_name@,
                    ),
            },
    {
        let app = lowercase(app_name);
        let mut i: usize = 0;
        while i < self.profiles.len()
            invariant
                i <= self.profiles@.len(),
                self@.profiles.len() == self.profiles@.len(),
                app@ == lower_of(app_name@),
                forall|k: int|
                    0 <= k < i ==> !profile_matches_app(#[trigger] self@.profiles[k], app_name@),
            decreases self.profiles@.len() - i,
        {
            proof {
                self.lemma_view_index(i as int);
            }
            if profile_triggers_on(&self.profiles[i], app.as_str()) {
                return Some(i);
            }
            i = i + 1;
        }
        None
    }
}

/// Whether `profile` switches on for an application whose case-folded name is `folded_app`.
pub fn profile_triggers_on(profile: &Profile, folded_app: &str) -> (r: bool)
    ensures
        r == (profile@.auto_switch_enabled && exists|j: int|
            0 <= j < profile@.trigger_apps.len() && seq_contains(
                folded_app@,
                lower_of(#[trigger] profile@.trigger_apps[j]),
            )),
{
    if !profile.auto_switch_enabled {
        return false;
    }
    let mut j: usize = 0;
    while j < profile.trigger_apps.len()
        invariant
            j <= profile.trigger_apps@.len(),
            profile@.trigger_apps.len() == profile.trigger_apps@.len(),
            profile.auto_switch_enabled,
            forall|k: int|
                0 <= k < j ==> !seq_contains(folded_app@, lower_of(#[trigger] profile@.trigger_apps[k])),
        decreases profile.trigger_apps@.len() - j,
    {
        assert(profile@.trigger_apps[j as int] == profile.trigger_apps@[j as int]@);
        let trigger = lowercase(profile.trigger_apps[j].as_str());
        if contains_text(folded_app, trigger.as_str()) {
            return true;
        }
        j = j + 1;
    }
    false
}

/// Deleting the default profile fails and leaves the store as it was.
pub proof fn lemma_delete_default_fails(s: ProfileManagerView, index: int)
    requires
        0 <= index < s.profiles.len(),
        s.profiles[index].is_default,
    ensures
        delete_spec(s, index) == (Err::<(), ProfileError>(ProfileError::CannotDeleteDefault), s),
{
}

/// Adding a profile whose name another profile has fails and leaves the store as it was.
pub proof fn lemma_add_duplicate_fails(s: ProfileManagerView, p: ProfileView, k: int)
    requires
        0 <= k < s.profiles.len(),
        s.profiles[k].name == p.name,
    ensures
        add_spec(s, p).0 is Err,
        add_spec(s, p).1 == s,
{
}

/// A deletion that leaves the active index past the end resets it to 0.
pub proof fn lemma_delete_resets_active(s: ProfileManagerView, index: int)
    requires
        store_wf(s),
        delete_spec(s, index).0 is Ok,
        s.active >= delete_spec(s, index).1.profiles.len(),
    ensures
        delete_spec(s, index).1.active == 0,
{
}

/// The store never becomes empty: a deletion keeps at least one profile.
pub proof fn lemma_delete_keeps_a_profile(s: ProfileManagerView, index: int)
    requires
        store_wf(s),
    ensures
        delete_spec(s, index).1.profiles.len() > 0,
        default_count(delete_spec(s, index).1.profiles) == 1,
{
    if 0 <= index < s.profiles.len() && !s.profiles[index].is_default {
        lemma_count_remove(s.profiles, index);
        lemma_count_nonempty(s.profiles.remove(index));
    }
}

/// Every store operation keeps exactly one default profile.
pub proof fn lemma_one_default_kept(s: ProfileManagerView, p: ProfileView, index: int)
    requires
        store_wf(s),
    ensures
        default_count(add_spec(s, p).1.profiles) == 1,
        default_count(update_spec(s, index, p).1.profiles) == 1,
        default_count(delete_spec(s, index).1.profiles) == 1,
        default_count(set_active_spec(s, index).1.profiles) == 1,
{
    assert(s.profiles.push(p).drop_last() =~= s.profiles);
    if 0 <= index < s.profiles.len() {
        lemma_count_update(s.profiles, index, p);
    }
    lemma_delete_keeps_a_profile(s, index);
}

/// Replacing one profile changes the default count by the two flags.
pub proof fn lemma_count_update(ps: Seq<ProfileView>, i: int, p: ProfileView)
    requires
        0 <= i < ps.len(),
    ensures
        default_count(ps.update(i, p)) + (if ps[i].is_default {
            1int
        } else {
            0int
        }) == default_count(ps) + (if p.is_default {
            1int
        } else {
            0int
        }),
    decreases ps.len(),
{
    let u = ps.update(i, p);
    if i == ps.len() - 1 {
        assert(u.drop_last() =~= ps.drop_last());
    } else {
        assert(u.drop_last() =~= ps.drop_last().update(i, p));
        lemma_count_update(ps.drop_last(), i, p);
    }
}

/// Removing one profile lowers the default count by its flag.
pub proof fn lemma_count_remove(ps: Seq<ProfileView>, i: int)
    requires
        0 <= i < ps.len(),
    ensures
        default_count(ps.remove(i)) + (if ps[i].is_default {
            1int
        } else {
            0int
        }) == default_count(ps),
    decreases ps.len(),
{
    let r = ps.remove(i);
    if i == ps.len() - 1 {
        assert(r =~= ps.drop_last());
    } else {
        assert(r.drop_last() =~= ps.drop_last().remove(i));
        assert(r.last() == ps.last());
        lemma_count_remove(ps.drop_last(), i);
    }
}

/// A list with a default profile is not empty.
proof fn lemma_count_nonempty(ps: Seq<ProfileView>)
    requires
        default_count(ps) > 0,
    ensures
        ps.len() > 0,
{
}

/// When no profile from position `i` on is invalid, each of them is valid.
pub proof fn lemma_profiles_valid_from(ps: Seq<ProfileView>, i: int)
    requires
        0 <= i,
        first_profile_error(ps, i) is None,
    ensures
        forall|k: int| i <= k < ps.len() ==> (#[trigger] profile_check(ps[k])) is Ok,
    decreases ps.len() - i,
{
    if i < ps.len() {
        lemma_profiles_valid_from(ps, i + 1);
    }
}

} // verus!
