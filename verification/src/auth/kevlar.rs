use vstd::prelude::*;
use vstd::string::StringExecFns;

verus! {

/// The system of record of the blocklist could not be read or written.
#[derive(Debug, Clone, Copy, PartialEq, Eq, Structural)]
pub struct StorageError;

/// The names in a list of users.
pub open spec fn names(users: Seq<String>) -> Set<Seq<char>> {
    Set::new(|name: Seq<char>| exists|i: int| 0 <= i < users.len() && (#[trigger] users[i])@ == name)
}

/// Whether one of `uids` is in `blocked`.
pub open spec fn any_blocked(blocked: Set<Seq<char>>, uids: Seq<String>) -> bool {
    exists|i: int| 0 <= i < uids.len() && blocked.contains((#[trigger] uids[i])@)
}

/// The snapshot of the blocklist that this process holds: not loaded, or the
/// set of the users that were blocked when it was loaded. Once loaded it
/// answers every question, until it is cleared.
pub struct KevlarCache {
    users: Option<Vec<String>>,
}

impl View for KevlarCache {
    type V = Option<Set<Seq<char>>>;

    closed spec fn view(&self) -> Option<Set<Seq<char>>> {
        match self.users {
            Some(users) => Some(names(users@)),
            None => None,
        }
    }
}

/// The snapshot after a load has brought `users`: a snapshot that was loaded
/// in the meantime stays.
pub open spec fn filled(cache: Option<Set<Seq<char>>>, users: Set<Seq<char>>) -> Option<
    Set<Seq<char>>,
> {
    match cache {
        Some(loaded) => Some(loaded),
        None => Some(users),
    }
}

/// What the snapshot says of `uid`; nothing if it is not loaded.
pub open spec fn has_kevlar(cache: Option<Set<Seq<char>>>, uid: Seq<char>) -> Option<bool> {
    match cache {
        Some(blocked) => Some(blocked.contains(uid)),
        None => None,
    }
}

/// What the snapshot says of `uids`. Of no user at all the answer is known
/// without a snapshot.
pub open spec fn any_has_kevlar(cache: Option<Set<Seq<char>>>, uids: Seq<String>) -> Option<bool> {
    if uids.len() == 0 {
        Some(false)
    } else {
        match cache {
            Some(blocked) => Some(any_blocked(blocked, uids)),
            None => None,
        }
    }
}

/// Whether `uid` is one of `users`.
pub fn contains_name(users: &Vec<String>, uid: &String) -> (r: bool)
    ensures
        r == names(users@).contains(uid@),
{
    let mut i: usize = 0;
    while i < users.len()
        invariant
            i <= users.len(),
            forall|j: int| 0 <= j < i ==> (#[trigger] users@[j])@ != uid@,
        decreases users.len() - i,
    {
        if users[i] == *uid {
            return true;
        }
        i += 1;
    }
    false
}

impl KevlarCache {
    /// A snapshot that is not loaded.
    pub fn new() -> (cache: KevlarCache)
        ensures
            cache@ is None,
    {
        KevlarCache { users: None }
    }

    /// Whether a snapshot is held.
    pub fn is_loaded(&self) -> (r: bool)
        ensures
            r == self@ is Some,
    {
        self.users.is_some()
    }

    /// Takes the users that a load brought as the snapshot, unless one was
    /// loaded in the meantime.
    pub fn fill(&mut self, users: Vec<String>)
        ensures
            final(self)@ == filled(old(self)@, names(users@)),
    {
        if self.users.is_none() {
            self.users = Some(users);
        }
    }
}

/// The blocked users, if the snapshot is loaded.
pub fn get_kevlar_users(cache: &KevlarCache) -> (r: Option<Vec<String>>)
    ensures
        match r {
            Some(users) => cache@ == Some(names(users@)),
            None => cache@ is None,
        },
{
    match &cache.users {
        None => None,
        Some(users) => {
            let mut copy: Vec<String> = Vec::new();
            let mut i: usize = 0;
            while i < users.len()
                invariant
                    i <= users.len(),
                    copy@.len() == i,
                    forall|j: int| 0 <= j < i ==> (#[trigger] copy@[j])@ == users@[j]@,
                decreases users.len() - i,
            {
                copy.push(users[i].clone());
                i += 1;
            }
            assert(names(copy@) =~= names(users@)) by {
                assert forall|name: Seq<char>| names(users@).contains(name) implies names(
                    copy@,
                ).contains(name) by {
                    let i = choose|i: int| 0 <= i < users@.len() && (#[trigger] users@[i])@ == name;
                    assert(copy@[i]@ == name);
                }
                assert forall|name: Seq<char>| names(copy@).contains(name) implies names(
                    users@,
                ).contains(name) by {
                    let i = choose|i: int| 0 <= i < copy@.len() && (#[trigger] copy@[i])@ == name;
                    assert(users@[i]@ == name);
                }
            }
            Some(copy)
        },
    }
}

/// Whether `uid` is blocked; `None` if the snapshot has to be loaded first.
pub fn user_has_kevlar(cache: &KevlarCache, uid: &str) -> (r: Option<bool>)
    ensures
        r == has_kevlar(cache@, uid@),
{
    match &cache.users {
        None => None,
        Some(users) => Some(contains_name(users, &String::from_str(uid))),
    }
}

/// Whether one of `uids` is blocked; `None` if the snapshot has to be loaded
/// first. Of no user at all the answer is `false`, loaded or not.
pub fn any_user_has_kevlar(cache: &KevlarCache, uids: &[String]) -> (r: Option<bool>)
    ensures
        r == any_has_kevlar(cache@, uids@),
{
    if uids.len() == 0 {
        return Some(false);
    }
    match &cache.users {
        None => None,
        Some(users) => {
            let mut i: usize = 0;
            while i < uids.len()
                invariant
                    i <= uids.len(),
                    uids.len() > 0,
                    cache@ == Some(names(users@)),
                    forall|j: int| 0 <= j < i ==> !names(users@).contains((#[trigger] uids@[j])@),
                decreases uids.len() - i,
            {
                if contains_name(users, &uids[i]) {
                    assert(names(users@).contains(uids@[i as int]@));
                    return Some(true);
                }
                i += 1;
            }
            Some(false)
        },
    }
}

/// Forgets the snapshot: whoever asks next has to load it again.
pub fn clear_kevlar_cache(cache: &mut KevlarCache)
    ensures
        final(cache)@ is None,
{
    cache.users = None;
}

/// Seconds that have to pass between two toggles of one user.
pub const COOLDOWN_SECONDS: i64 = 86400;

/// How an attempt to toggle a user's entry ends.
#[derive(Debug, Clone, Copy, PartialEq, Eq, Structural)]
pub enum ToggleOutcome {
    /// The entry was made, or flipped.
    Toggled,
    /// The entry was toggled less than a day ago and stays as it is.
    TooRecent,
}

/// A user's entry in the system of record of the blocklist: whether the user
/// is blocked, and when the entry was last changed, in seconds since the
/// epoch.
#[derive(Debug, Clone)]
pub struct KevlarRow {
    pub uid: String,
    pub enabled: bool,
    pub last_modified: i64,
}

/// A toggle comes too early while less than the cooldown has passed since
/// the entry was last changed.
pub open spec fn too_recent(existing: Option<KevlarRow>, now: int) -> bool {
    existing matches Some(row) && now - row.last_modified < COOLDOWN_SECONDS
}

/// Whether the user is blocked after a toggle at `now`: a first toggle
/// blocks, a later one flips the entry, one that comes too early changes
/// nothing.
pub open spec fn enabled_after(existing: Option<KevlarRow>, now: int) -> bool {
    match existing {
        None => true,
        Some(row) => if too_recent(existing, now) {
            row.enabled
        } else {
            !row.enabled
        },
    }
}

/// When the entry was last changed, after a toggle at `now`.
pub open spec fn modified_after(existing: Option<KevlarRow>, now: int) -> int {
    match existing {
        Some(row) if too_recent(existing, now) => row.last_modified as int,
        _ => now,
    }
}

/// A toggle: how it ended, and the user's entry as it stands afterwards.
#[derive(Debug, Clone)]
pub struct Toggle {
    pub outcome: ToggleOutcome,
    pub row: KevlarRow,
}

/// `toggle` is what a toggle at `now` returns for the entry `existing`.
pub open spec fn toggled(existing: Option<KevlarRow>, toggle: Toggle, now: int) -> bool {
    &&& toggle.outcome == if too_recent(existing, now) {
        ToggleOutcome::TooRecent
    } else {
        ToggleOutcome::Toggled
    }
    &&& toggle.row.enabled == enabled_after(existing, now)
    &&& toggle.row.last_modified == modified_after(existing, now)
}

/// Toggles the entry of the user `uid` at the time `now`, given the entry
/// that the system of record holds for the user, if any.
pub fn toggle_row(existing: Option<KevlarRow>, uid: &str, now: i64) -> (r: Toggle)
    ensures
        toggled(existing, r, now as int),
        r.row.uid@ == uid@,
{
    match existing {
        None => Toggle {
            outcome: ToggleOutcome::Toggled,
            row: KevlarRow { uid: String::from_str(uid), enabled: true, last_modified: now },
        },
        Some(row) => {
            if (now as i128) - (row.last_modified as i128) < (COOLDOWN_SECONDS as i128) {
                Toggle {
                    outcome: ToggleOutcome::TooRecent,
                    row: KevlarRow {
                        uid: String::from_str(uid),
                        enabled: row.enabled,
                        last_modified: row.last_modified,
                    },
                }
            } else {
                Toggle {
                    outcome: ToggleOutcome::Toggled,
                    row: KevlarRow {
                        uid: String::from_str(uid),
                        enabled: !row.enabled,
                        last_modified: now,
                    },
                }
            }
        },
    }
}

/// The snapshot after a toggle: one that changed the system of record makes
/// the snapshot stale, so it is dropped, not mended.
pub open spec fn after_toggle(cache: Option<Set<Seq<char>>>, outcome: ToggleOutcome) -> Option<
    Set<Seq<char>>,
> {
    match outcome {
        ToggleOutcome::Toggled => None,
        ToggleOutcome::TooRecent => cache,
    }
}

/// Tells the cache how a toggle ended, once the system of record has taken
/// it.
pub fn toggle_kevlar_cache(cache: &mut KevlarCache, outcome: ToggleOutcome)
    ensures
        final(cache)@ == after_toggle(old(cache)@, outcome),
{
    match outcome {
        ToggleOutcome::Toggled => {
            cache.users = None;
        },
        ToggleOutcome::TooRecent => {},
    }
}

/// Of two toggles of one user less than the cooldown apart the first
/// succeeds and the second comes too early and changes nothing; a third one,
/// made when the cooldown has passed since the first, succeeds and flips the
/// entry again.
pub proof fn lemma_toggle_cooldown(
    existing: Option<KevlarRow>,
    first: Toggle,
    second: Toggle,
    third: Toggle,
    t1: int,
    t2: int,
    t3: int,
)
    requires
        !too_recent(existing, t1),
        toggled(existing, first, t1),
        toggled(Some(first.row), second, t2),
        toggled(Some(second.row), third, t3),
        t1 <= t2 < t1 + COOLDOWN_SECONDS <= t3,
    ensures
        first.outcome == ToggleOutcome::Toggled,
        second.outcome == ToggleOutcome::TooRecent,
        second.row.enabled == first.row.enabled,
        second.row.last_modified == first.row.last_modified,
        third.outcome == ToggleOutcome::Toggled,
        third.row.enabled == !first.row.enabled,
{
}

/// The blocked users in the system of record once it has taken the entry
/// `row`.
pub open spec fn blocked_after(blocked: Set<Seq<char>>, row: KevlarRow) -> Set<Seq<char>> {
    if row.enabled {
        blocked.insert(row.uid@)
    } else {
        blocked.remove(row.uid@)
    }
}

/// After a toggle that succeeded, the next question is answered from a
/// snapshot that is loaded anew, whatever snapshot was held before: the
/// answer for the user is what the toggle has made of the user's entry.
pub proof fn lemma_toggle_invalidates(
    stale: Option<Set<Seq<char>>>,
    blocked: Set<Seq<char>>,
    toggle: Toggle,
)
    requires
        toggle.outcome == ToggleOutcome::Toggled,
    ensures
        has_kevlar(after_toggle(stale, toggle.outcome), toggle.row.uid@) is None,
        has_kevlar(
            filled(after_toggle(stale, toggle.outcome), blocked_after(blocked, toggle.row)),
            toggle.row.uid@,
        ) == Some(toggle.row.enabled),
{
}

/// A toggle that came too early leaves the snapshot as it is.
pub proof fn lemma_early_toggle_keeps_snapshot(cache: Option<Set<Seq<char>>>, uid: Seq<char>)
    ensures
        has_kevlar(after_toggle(cache, ToggleOutcome::TooRecent), uid) == has_kevlar(cache, uid),
{
}

} // verus!
