//! Presence awareness: who is online, what they do, and the heartbeat that
//! marks users not seen for two minutes as offline. Times are milliseconds
//! since the Unix epoch; events wait in an outbox for the listeners.
use vstd::prelude::*;
use crate::collaboration::{CollaborationError, DocumentId, UserId};
use crate::stamp::now_millis;
use crate::strmap::StrMap;
use crate::text::owned;

verus! {

/// User status.
#[derive(Debug, Clone, Copy, PartialEq, Eq, Structural)]
pub enum Status {
    Online,
    Away,
    Busy,
    Offline,
    Invisible,
}

/// Activity type.
#[derive(Debug)]
pub enum Activity {
    Editing { document: DocumentId, position: Option<(u32, u32)> },
    Debugging,
    Running,
    Idle,
    InMeeting,
    Presenting,
    Custom(String),
}

impl Activity {
    /// A copy of the activity.
    pub fn duplicate(&self) -> (a: Self)
        ensures a == *self,
    {
        match self {
            Activity::Editing { document, position } => Activity::Editing { document: document.duplicate(), position: *position },
            Activity::Debugging => Activity::Debugging,
            Activity::Running => Activity::Running,
            Activity::Idle => Activity::Idle,
            Activity::InMeeting => Activity::InMeeting,
            Activity::Presenting => Activity::Presenting,
            Activity::Custom(s) => Activity::Custom(s.clone()),
        }
    }
}

/// Device information.
#[derive(Debug)]
pub struct DeviceInfo {
    pub name: String,
    pub platform: String,
    pub version: String,
    pub capabilities: Vec<String>,
}

/// User presence.
#[derive(Debug)]
pub struct UserPresence {
    pub user_id: UserId,
    pub status: Status,
    pub activity: Option<Activity>,
    pub last_seen: i64,
    pub last_activity: i64,
    pub device: DeviceInfo,
    pub current_document: Option<DocumentId>,
    pub session_id: Option<String>,
}

fn copy_strings(v: &Vec<String>) -> (r: Vec<String>)
    ensures r@ == v@,
{
    let mut r: Vec<String> = Vec::new();
    let mut i: usize = 0;
    while i < v.len()
        invariant
            i <= v@.len(),
            r@ == v@.subrange(0, i as int),
        decreases v.len() - i,
    {
        r.push(v[i].clone());
        i = i + 1;
        assert(r@ =~= v@.subrange(0, i as int));
    }
    assert(v@.subrange(0, v@.len() as int) =~= v@);
    r
}

/// Two presences hold the same values.
pub open spec fn same_presence(a: UserPresence, b: UserPresence) -> bool {
    &&& a.user_id == b.user_id
    &&& a.status == b.status
    &&& a.activity == b.activity
    &&& a.last_seen == b.last_seen
    &&& a.last_activity == b.last_activity
    &&& a.device.name == b.device.name
    &&& a.device.platform == b.device.platform
    &&& a.device.version == b.device.version
    &&& a.device.capabilities@ == b.device.capabilities@
    &&& a.current_document == b.current_document
    &&& a.session_id == b.session_id
}

impl UserPresence {
    /// A copy of the presence.
    pub fn duplicate(&self) -> (p: Self)
        ensures same_presence(p, *self),
    {
        UserPresence {
            user_id: self.user_id.duplicate(),
            status: self.status,
            activity: match &self.activity {
                Some(a) => Some(a.duplicate()),
                None => None,
            },
            last_seen: self.last_seen,
            last_activity: self.last_activity,
            device: DeviceInfo {
                name: self.device.name.clone(),
                platform: self.device.platform.clone(),
                version: self.device.version.clone(),
                capabilities: copy_strings(&self.device.capabilities),
            },
            current_document: match &self.current_document {
                Some(d) => Some(d.duplicate()),
                None => None,
            },
            session_id: match &self.session_id {
                Some(s) => Some(s.clone()),
                None => None,
            },
        }
    }
}

/// Presence event.
#[derive(Debug)]
pub enum PresenceEvent {
    StatusChanged(UserId, Status),
    ActivityChanged(UserId, Option<Activity>),
    UserJoined(UserId),
    UserLeft(UserId),
    UserUpdated(UserId, UserPresence),
}

/// A user not seen for more than 120 whole seconds at time `now`.
pub open spec fn is_stale(p: UserPresence, now: i64) -> bool {
    (now as int - p.last_seen as int) / 1000 > 120
}

/// The presence after a heartbeat at `now`: the current user is seen now, other
/// stale users are offline, the rest unchanged.
pub open spec fn after_heartbeat(p: UserPresence, current: Seq<char>, now: i64) -> UserPresence {
    if p.user_id.0@ == current {
        UserPresence { last_seen: now, ..p }
    } else if is_stale(p, now) {
        UserPresence { status: Status::Offline, ..p }
    } else {
        p
    }
}

/// Presence manager: presences by user id, the current user, and the outbox.
pub struct PresenceManager {
    presences: StrMap<UserPresence>,
    current_user: UserId,
    platform: String,
    version: String,
    events: Vec<PresenceEvent>,
}

impl PresenceManager {
    pub closed spec fn wf(&self) -> bool {
        &&& self.presences.wf()
        &&& forall|k: Seq<char>| #[trigger] self.presences@.contains_key(k) ==> self.presences@[k].user_id.0@ == k
    }

    pub closed spec fn presences_view(&self) -> Map<Seq<char>, UserPresence> {
        self.presences@
    }

    /// The user ids, in the order first seen.
    pub closed spec fn user_order(&self) -> Seq<Seq<char>> {
        self.presences.key_seq()
    }

    pub closed spec fn current(&self) -> Seq<char> {
        self.current_user.0@
    }

    pub closed spec fn outbox(&self) -> Seq<PresenceEvent> {
        self.events@
    }

    /// A manager for the current user on a platform, knowing no presences. The
    /// caller runs the heartbeat every 30 seconds.
    pub fn new(current_user: UserId, platform: &str, version: &str) -> (m: Self)
        ensures
            m.wf(),
            m.current() == current_user.0@,
            m.presences_view() == Map::<Seq<char>, UserPresence>::empty(),
            m.outbox().len() == 0,
    {
        PresenceManager {
            presences: StrMap::new(),
            current_user,
            platform: owned(platform),
            version: owned(version),
            events: Vec::new(),
        }
    }

    /// Update the current user's presence (created online on first use): a new
    /// status is set, announced when it changes; a new activity is set and
    /// announced; the user is seen now.
    pub fn update_presence(&mut self, status: Option<Status>, activity: Option<Activity>) -> (r: Result<(), CollaborationError>)
        requires old(self).wf(),
        ensures
            final(self).wf(),
            r is Ok,
            final(self).current() == old(self).current(),
            final(self).presences_view().dom() == old(self).presences_view().dom().insert(old(self).current()),
            forall|k: Seq<char>| #[trigger] final(self).presences_view().contains_key(k) && k != old(self).current()
                ==> final(self).presences_view()[k] == old(self).presences_view()[k],
            ({
                let p = final(self).presences_view()[old(self).current()];
                let before = if old(self).presences_view().contains_key(old(self).current()) {
                    Some(old(self).presences_view()[old(self).current()])
                } else {
                    None::<UserPresence>
                };
                &&& p.user_id.0@ == old(self).current()
                &&& p.status == (match status { Some(s) => s, None => match before { Some(b) => b.status, None => Status::Online } })
                &&& (activity is Some ==> p.activity == activity)
                &&& (activity is None ==> p.activity == (match before { Some(b) => b.activity, None => None::<Activity> }))
            }),
    {
        let ghost before_map = self.presences@;
        let now = now_millis();
        let idx = match self.presences.find(self.current_user.0.as_str()) {
            Some(i) => i,
            None => {
                let presence = UserPresence {
                    user_id: self.current_user.duplicate(),
                    status: Status::Online,
                    activity: None,
                    last_seen: now,
                    last_activity: now,
                    device: DeviceInfo {
                        name: owned("Unknown"),
                        platform: self.platform.clone(),
                        version: self.version.clone(),
                        capabilities: vec![owned("text")],
                    },
                    current_document: None,
                    session_id: None,
                };
                let ghost old_entries = self.presences.entries();
                self.presences.insert(self.current_user.0.clone(), presence);
                proof {
                    assert(self.presences.entries() == old_entries.push((self.current_user.0@, presence)));
                    self.presences.lemma_index_of(old_entries.len() as int);
                    assert forall|k: Seq<char>| #[trigger] self.presences@.contains_key(k) implies self.presences@[k].user_id.0@ == k by {
                        if k != self.current_user.0@ {
                            assert(before_map.contains_key(k));
                        }
                    }
                }
                self.presences.len() - 1
            },
        };
        proof {
            self.presences.lemma_index_of(idx as int);
        }
        let ghost mid = self.presences;
        let mut new_events: Vec<PresenceEvent> = Vec::new();
        let p = self.presences.value_at_mut(idx);
        match status {
            Some(s) => {
                if p.status != s {
                    new_events.push(PresenceEvent::StatusChanged(p.user_id.duplicate(), s));
                }
                p.status = s;
            },
            None => {},
        }
        match activity {
            Some(a) => {
                new_events.push(PresenceEvent::ActivityChanged(p.user_id.duplicate(), Some(a.duplicate())));
                p.activity = Some(a);
                p.last_activity = now;
            },
            None => {},
        }
        p.last_seen = now;
        proof {
            StrMap::lemma_update_value(mid, self.presences, idx as int, self.presences.entries()[idx as int].1);
            assert forall|k: Seq<char>| #[trigger] self.presences@.contains_key(k) implies self.presences@[k].user_id.0@ == k by {
                if k != self.current_user.0@ {
                    assert(mid@.contains_key(k));
                }
            }
        }
        self.events.append(&mut new_events);
        Ok(())
    }

    /// Store another user's presence, announced as joined if new, else as
    /// updated.
    pub fn update_remote_presence(&mut self, presence: UserPresence)
        requires old(self).wf(),
        ensures
            final(self).wf(),
            final(self).current() == old(self).current(),
            final(self).presences_view() == old(self).presences_view().insert(presence.user_id.0@, presence),
            final(self).outbox().len() == old(self).outbox().len() + 1,
            old(self).presences_view().contains_key(presence.user_id.0@) ==>
                (final(self).outbox().last() matches PresenceEvent::UserUpdated(u, q) && u == presence.user_id && same_presence(q, presence)),
            !old(self).presences_view().contains_key(presence.user_id.0@) ==>
                (final(self).outbox().last() matches PresenceEvent::UserJoined(u) && u == presence.user_id),
    {
        let user_id = presence.user_id.duplicate();
        let event = if self.presences.contains_key(user_id.0.as_str()) {
            PresenceEvent::UserUpdated(user_id.duplicate(), presence.duplicate())
        } else {
            PresenceEvent::UserJoined(user_id.duplicate())
        };
        let ghost before = self.presences@;
        self.presences.insert(user_id.0, presence);
        proof {
            assert forall|k: Seq<char>| #[trigger] self.presences@.contains_key(k) implies self.presences@[k].user_id.0@ == k by {
                if k != presence.user_id.0@ {
                    assert(before.contains_key(k));
                }
            }
        }
        self.events.push(event);
    }

    /// Forget a user's presence and announce that the user left.
    pub fn remove_user(&mut self, user_id: &UserId)
        requires old(self).wf(),
        ensures
            final(self).wf(),
            final(self).current() == old(self).current(),
            final(self).presences_view() == old(self).presences_view().remove(user_id.0@),
            final(self).outbox().len() == old(self).outbox().len() + 1,
            final(self).outbox().last() matches PresenceEvent::UserLeft(u) && u == *user_id,
    {
        self.presences.remove(user_id.0.as_str());
        self.events.push(PresenceEvent::UserLeft(user_id.duplicate()));
    }

    /// A user's presence.
    pub fn get_presence(&self, user_id: &UserId) -> (r: Option<&UserPresence>)
        requires self.wf(),
        ensures
            match r {
                Some(p) => self.presences_view().contains_key(user_id.0@) && *p == self.presences_view()[user_id.0@],
                None => !self.presences_view().contains_key(user_id.0@),
            },
    {
        self.presences.get(user_id.0.as_str())
    }

    /// Every presence, in the order first seen.
    pub fn get_all_presences(&self) -> (r: Vec<&UserPresence>)
        requires self.wf(),
        ensures
            r@.len() == self.user_order().len(),
            forall|i: int| 0 <= i < r@.len() ==> *r@[i] == #[trigger] self.presences_view()[self.user_order()[i]],
    {
        let r = self.presences.values();
        proof { self.presences.lemma_key_seq(); }
        r
    }

    /// The users that are not offline, in the order first seen.
    pub fn get_online_users(&self) -> (r: Vec<UserId>)
        requires self.wf(),
        ensures
            r@.map_values(|u: UserId| u.0@)
                == self.user_order().filter(|k: Seq<char>| self.presences_view()[k].status != Status::Offline),
    {
        let n = self.presences.len();
        let mut r: Vec<UserId> = Vec::new();
        let mut i: usize = 0;
        proof { self.presences.lemma_key_seq(); }
        while i < n
            invariant
                self.wf(),
                n == self.user_order().len(),
                n == self.presences.entries().len(),
                i <= n,
                r@.map_values(|u: UserId| u.0@) == self.user_order().subrange(0, i as int)
                    .filter(|k: Seq<char>| self.presences_view()[k].status != Status::Offline),
            decreases n - i,
        {
            let (k, p) = self.presences.entry_at(i);
            proof {
                self.presences.lemma_index_of(i as int);
                assert(self.user_order()[i as int] == k@);
                assert(self.user_order().subrange(0, i + 1).drop_last() =~= self.user_order().subrange(0, i as int));
                reveal(Seq::filter);
            }
            if p.status != Status::Offline {
                r.push(p.user_id.duplicate());
            }
            assert(r@.map_values(|u: UserId| u.0@) =~= self.user_order().subrange(0, i + 1)
                .filter(|k: Seq<char>| self.presences_view()[k].status != Status::Offline));
            i = i + 1;
        }
        assert(self.user_order().subrange(0, n as int) =~= self.user_order());
        r
    }

    /// Whether a known user is not offline.
    pub fn is_online(&self, user_id: &UserId) -> (b: bool)
        requires self.wf(),
        ensures
            b == (self.presences_view().contains_key(user_id.0@)
                && self.presences_view()[user_id.0@].status != Status::Offline),
    {
        match self.presences.get(user_id.0.as_str()) {
            Some(p) => p.status != Status::Offline,
            None => false,
        }
    }

    /// One heartbeat at time `now`: see `after_heartbeat`; each stale user is
    /// announced offline, in the order first seen.
    pub fn heartbeat(&mut self, now: i64)
        requires old(self).wf(),
        ensures
            final(self).wf(),
            final(self).current() == old(self).current(),
            final(self).presences_view().dom() == old(self).presences_view().dom(),
            forall|k: Seq<char>| #[trigger] final(self).presences_view().contains_key(k) ==>
                final(self).presences_view()[k] == after_heartbeat(old(self).presences_view()[k], old(self).current(), now),
    {
        let n = self.presences.len();
        let mut i: usize = 0;
        let ghost start = self.presences@;
        proof { self.presences.lemma_key_seq(); }
        while i < n
            invariant
                self.presences.wf(),
                n == self.presences.entries().len(),
                i <= n,
                self.presences.key_seq() == old(self).presences.key_seq(),
                self.current_user == old(self).current_user,
                start == old(self).presences@,
                forall|k: Seq<char>| #[trigger] start.contains_key(k) ==> start[k].user_id.0@ == k,
                self.presences@.dom() == start.dom(),
                forall|j: int| 0 <= j < i ==> #[trigger] self.presences@[self.presences.key_seq()[j]]
                    == after_heartbeat(start[self.presences.key_seq()[j]], self.current_user.0@, now),
                forall|j: int| i <= j < n ==> #[trigger] self.presences@[self.presences.key_seq()[j]]
                    == start[self.presences.key_seq()[j]],
            decreases n - i,
        {
            let ghost before = self.presences;
            proof {
                self.presences.lemma_index_of(i as int);
                self.presences.lemma_key_seq();
            }
            let is_current;
            let stale;
            {
                let (_, p) = self.presences.entry_at(i);
                is_current = crate::text::str_eq(p.user_id.0.as_str(), self.current_user.0.as_str());
                stale = ((now as i128) - (p.last_seen as i128)) / 1000 > 120;
            }
            let ghost key = self.presences.key_seq()[i as int];
            let p = self.presences.value_at_mut(i);
            if is_current {
                p.last_seen = now;
            } else if stale {
                p.status = Status::Offline;
                self.events.push(PresenceEvent::StatusChanged(p.user_id.duplicate(), Status::Offline));
            }
            proof {
                StrMap::lemma_update_value(before, self.presences, i as int, self.presences.entries()[i as int].1);
                assert forall|j: int| 0 <= j < i + 1 implies #[trigger] self.presences@[self.presences.key_seq()[j]]
                    == after_heartbeat(start[self.presences.key_seq()[j]], self.current_user.0@, now) by {
                    if j < i {
                        assert(self.presences.key_seq()[j] != key);
                    }
                }
                assert forall|j: int| i + 1 <= j < n implies #[trigger] self.presences@[self.presences.key_seq()[j]]
                    == start[self.presences.key_seq()[j]] by {
                    assert(self.presences.key_seq()[j] != key);
                }
            }
            i = i + 1;
        }
        proof {
            assert forall|k: Seq<char>| #[trigger] self.presences@.contains_key(k) implies
                self.presences@[k] == after_heartbeat(start[k], self.current_user.0@, now) by {
                let j = self.presences.key_seq().index_of(k);
                assert(self.presences.key_seq().contains(k));
            }
            assert forall|k: Seq<char>| #[trigger] self.presences@.contains_key(k) implies self.presences@[k].user_id.0@ == k by {
                let j = self.presences.key_seq().index_of(k);
                assert(self.presences.key_seq().contains(k));
            }
        }
    }

    /// Take the events waiting for the listeners.
    pub fn take_events(&mut self) -> (ev: Vec<PresenceEvent>)
        ensures
            ev@ == old(self).outbox(),
            final(self).outbox().len() == 0,
            final(self).presences_view() == old(self).presences_view(),
            final(self).current() == old(self).current(),
            final(self).wf() == old(self).wf(),
    {
        let mut ev: Vec<PresenceEvent> = Vec::new();
        std::mem::swap(&mut ev, &mut self.events);
        ev
    }
}

} // verus!
