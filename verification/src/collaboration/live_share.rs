//! Live-share sessions: who takes part, in which role, where their cursors and
//! selections are and whom they follow. Times are milliseconds since the Unix
//! epoch. Peer-to-peer transport is outside the library.
use vstd::prelude::*;
use crate::collaboration::{CollaborationError, SessionId, UserId};
use crate::stamp::{is_hyphenated_uuid, now_millis};
use crate::strmap::StrMap;
use crate::text::{concat2, owned};

verus! {

/// The live-share feature.
#[derive(Debug, Clone, Copy)]
pub struct LiveShare;

/// Session role.
#[derive(Debug, Clone, Copy, PartialEq, Eq, Structural)]
pub enum SessionRole {
    Host,
    Participant,
    Observer,
}

/// Cursor position.
#[derive(Debug)]
pub struct CursorPosition {
    pub line: u32,
    pub column: u32,
    pub document_id: Option<String>,
}

/// Selection range.
#[derive(Debug)]
pub struct Selection {
    pub start_line: u32,
    pub start_col: u32,
    pub end_line: u32,
    pub end_col: u32,
    pub document_id: Option<String>,
}

/// Session state.
#[derive(Debug, Clone, Copy, PartialEq, Eq, Structural)]
pub enum SessionState {
    Initializing,
    Active,
    Paused,
    Closed,
    Error,
}

/// Participant in a session.
#[derive(Debug)]
pub struct Participant {
    pub user_id: UserId,
    pub name: String,
    pub role: SessionRole,
    pub joined_at: i64,
    pub last_active: i64,
    pub cursor_position: Option<CursorPosition>,
    pub selection: Option<Selection>,
    pub following: Option<UserId>,
    pub audio_enabled: bool,
    pub video_enabled: bool,
}

fn copy_opt_string(o: &Option<String>) -> (r: Option<String>)
    ensures r == *o,
{
    match o {
        Some(s) => Some(s.clone()),
        None => None,
    }
}

impl Participant {
    /// A copy of the participant.
    pub fn duplicate(&self) -> (p: Self)
        ensures p == *self,
    {
        Participant {
            user_id: self.user_id.duplicate(),
            name: self.name.clone(),
            role: self.role,
            joined_at: self.joined_at,
            last_active: self.last_active,
            cursor_position: match &self.cursor_position {
                Some(c) => Some(CursorPosition { line: c.line, column: c.column, document_id: copy_opt_string(&c.document_id) }),
                None => None,
            },
            selection: match &self.selection {
                Some(s) => Some(Selection {
                    start_line: s.start_line,
                    start_col: s.start_col,
                    end_line: s.end_line,
                    end_col: s.end_col,
                    document_id: copy_opt_string(&s.document_id),
                }),
                None => None,
            },
            following: match &self.following {
                Some(u) => Some(u.duplicate()),
                None => None,
            },
            audio_enabled: self.audio_enabled,
            video_enabled: self.video_enabled,
        }
    }
}

/// A participant who just joined: named, in a role, seen at `now`, with no
/// cursor, selection or following, audio and video off.
pub open spec fn fresh_participant(p: Participant, user: Seq<char>, name: Seq<char>, role: SessionRole) -> bool {
    &&& p.user_id.0@ == user
    &&& p.name@ == name
    &&& p.role == role
    &&& p.cursor_position is None
    &&& p.selection is None
    &&& p.following is None
    &&& !p.audio_enabled
    &&& !p.video_enabled
}

/// Live share session.
pub struct LiveShareSession {
    pub id: SessionId,
    pub name: String,
    pub host: UserId,
    pub participants: StrMap<Participant>,
    pub state: SessionState,
    pub created_at: i64,
    pub password_protected: bool,
    pub max_participants: usize,
}

impl LiveShareSession {
    pub closed spec fn wf(&self) -> bool {
        &&& self.participants.wf()
        &&& forall|k: Seq<char>| #[trigger] self.participants@.contains_key(k) ==> self.participants@[k].user_id.0@ == k
    }

    pub closed spec fn members(&self) -> Map<Seq<char>, Participant> {
        self.participants@
    }

    /// Participant ids in the order they joined.
    pub closed spec fn member_order(&self) -> Seq<Seq<char>> {
        self.participants.key_seq()
    }

    pub closed spec fn state_spec(&self) -> SessionState {
        self.state
    }

    /// A new active session with a fresh id and the host as its only
    /// participant, named "Host"; a password makes it password protected.
    pub fn new(name: String, host: UserId, password: Option<String>, max_participants: usize) -> (r: Result<Self, CollaborationError>)
        ensures
            r matches Ok(s) && {
                &&& s.wf()
                &&& is_hyphenated_uuid(s.id.0@)
                &&& s.name == name
                &&& s.host == host
                &&& s.members().dom() == set![host.0@]
                &&& fresh_participant(s.members()[host.0@], host.0@, "Host"@, SessionRole::Host)
                &&& s.state_spec() == SessionState::Active
                &&& s.password_protected == (password is Some)
                &&& s.max_participants == max_participants
            },
    {
        let now = now_millis();
        let mut participants: StrMap<Participant> = StrMap::new();
        let p = Participant {
            user_id: host.duplicate(),
            name: owned("Host"),
            role: SessionRole::Host,
            joined_at: now,
            last_active: now,
            cursor_position: None,
            selection: None,
            following: None,
            audio_enabled: false,
            video_enabled: false,
        };
        participants.insert(host.0.clone(), p);
        assert(participants@.dom() =~= set![host.0@]);
        let mut session = LiveShareSession {
            id: SessionId::new(),
            name,
            host,
            participants,
            state: SessionState::Initializing,
            created_at: now,
            password_protected: password.is_some(),
            max_participants,
        };
        session.state = SessionState::Active;
        Ok(session)
    }

    /// Let a user join: a password-protected session needs a password, and a
    /// full session (as many participants as its maximum) takes nobody. The user
    /// joins as a participant named "User " and the id.
    pub fn add_participant(&mut self, user_id: UserId, password: Option<String>) -> (r: Result<(), CollaborationError>)
        requires old(self).wf(),
        ensures
            final(self).wf(),
            final(self).id == old(self).id && final(self).name == old(self).name && final(self).host == old(self).host,
            final(self).state_spec() == old(self).state_spec(),
            final(self).max_participants == old(self).max_participants,
            final(self).password_protected == old(self).password_protected,
            old(self).password_protected && password is None ==> {
                &&& r matches Err(CollaborationError::PermissionDenied(m)) && m@ == "Password required"@
                &&& final(self).members() == old(self).members()
            },
            !(old(self).password_protected && password is None) && old(self).members().dom().len() >= old(self).max_participants ==> {
                &&& r matches Err(CollaborationError::PermissionDenied(m)) && m@ == "Session full"@
                &&& final(self).members() == old(self).members()
            },
            !(old(self).password_protected && password is None) && old(self).members().dom().len() < old(self).max_participants ==> {
                &&& r is Ok
                &&& final(self).members().dom() == old(self).members().dom().insert(user_id.0@)
                &&& fresh_participant(final(self).members()[user_id.0@], user_id.0@, "User "@ + user_id.0@, SessionRole::Participant)
                &&& forall|k: Seq<char>| #[trigger] final(self).members().contains_key(k) && k != user_id.0@
                    ==> final(self).members()[k] == old(self).members()[k]
            },
    {
        if self.password_protected && password.is_none() {
            return Err(CollaborationError::PermissionDenied(owned("Password required")));
        }
        proof { self.participants.lemma_key_seq(); self.lemma_count(); }
        if self.participants.len() >= self.max_participants {
            return Err(CollaborationError::PermissionDenied(owned("Session full")));
        }
        let now = now_millis();
        let participant = Participant {
            user_id: user_id.duplicate(),
            name: concat2("User ", user_id.0.as_str()),
            role: SessionRole::Participant,
            joined_at: now,
            last_active: now,
            cursor_position: None,
            selection: None,
            following: None,
            audio_enabled: false,
            video_enabled: false,
        };
        let ghost before = self.participants@;
        self.participants.insert(user_id.0, participant);
        proof {
            assert forall|k: Seq<char>| #[trigger] self.participants@.contains_key(k) implies self.participants@[k].user_id.0@ == k by {
                if k != user_id.0@ {
                    assert(before.contains_key(k));
                }
            }
        }
        Ok(())
    }

    proof fn lemma_count(&self)
        requires self.wf(),
        ensures self.members().dom().len() == self.participants.entries().len(),
    {
        self.participants.lemma_key_seq();
        self.participants.key_seq().unique_seq_to_set();
        assert(self.participants@.dom() =~= self.participants.key_seq().to_set());
    }

    /// Number of participants.
    pub fn participant_count(&self) -> (n: usize)
        requires self.wf(),
        ensures n == self.members().dom().len(),
    {
        proof { self.lemma_count(); }
        self.participants.len()
    }

    /// A user leaves.
    pub fn remove_participant(&mut self, user_id: &UserId) -> (r: Result<(), CollaborationError>)
        requires old(self).wf(),
        ensures
            final(self).wf(),
            final(self).id == old(self).id && final(self).name == old(self).name && final(self).host == old(self).host,
            r is Ok,
            final(self).members() == old(self).members().remove(user_id.0@),
            final(self).state_spec() == old(self).state_spec(),
            final(self).max_participants == old(self).max_participants,
            final(self).password_protected == old(self).password_protected,
    {
        self.participants.remove(user_id.0.as_str());
        Ok(())
    }

    /// Replace a participant's information (adding them if absent).
    pub fn update_participant(&mut self, participant: Participant) -> (r: Result<(), CollaborationError>)
        requires old(self).wf(),
        ensures
            final(self).wf(),
            r is Ok,
            final(self).members() == old(self).members().insert(participant.user_id.0@, participant),
            final(self).state_spec() == old(self).state_spec(),
            final(self).max_participants == old(self).max_participants,
            final(self).password_protected == old(self).password_protected,
    {
        let ghost before = self.participants@;
        let key = participant.user_id.0.clone();
        self.participants.insert(key, participant);
        proof {
            assert forall|k: Seq<char>| #[trigger] self.participants@.contains_key(k) implies self.participants@[k].user_id.0@ == k by {
                if k != participant.user_id.0@ {
                    assert(before.contains_key(k));
                }
            }
        }
        Ok(())
    }

    /// Change one participant in place, if present; the others stay.
    fn change_participant(&mut self, user: &str, cursor: Option<CursorPosition>, selection: Option<Selection>,
        follow: Option<Option<UserId>>, touch: bool)
        requires old(self).wf(),
        ensures
            final(self).wf(),
            final(self).members().dom() == old(self).members().dom(),
            forall|k: Seq<char>| #[trigger] final(self).members().contains_key(k) && k != user@
                ==> final(self).members()[k] == old(self).members()[k],
            old(self).members().contains_key(user@) ==> {
                let p = old(self).members()[user@];
                let q = final(self).members()[user@];
                &&& q.user_id == p.user_id && q.name == p.name && q.role == p.role && q.joined_at == p.joined_at
                &&& q.audio_enabled == p.audio_enabled && q.video_enabled == p.video_enabled
                &&& q.cursor_position == (if cursor is Some { cursor } else { p.cursor_position })
                &&& q.selection == (if selection is Some { selection } else { p.selection })
                &&& q.following == (match follow { Some(f) => f, None => p.following })
                &&& !touch ==> q.last_active == p.last_active
            },
            !old(self).members().contains_key(user@) ==> final(self).members() == old(self).members(),
            final(self).state_spec() == old(self).state_spec(),
            final(self).max_participants == old(self).max_participants,
            final(self).password_protected == old(self).password_protected,
    {
        match self.participants.find(user) {
            Some(i) => {
                let ghost before = self.participants;
                proof { self.participants.lemma_index_of(i as int); }
                let now = if touch { now_millis() } else { 0 };
                let p = self.participants.value_at_mut(i);
                if cursor.is_some() { p.cursor_position = cursor; }
                if selection.is_some() { p.selection = selection; }
                match follow {
                    Some(f) => { p.following = f; },
                    None => {},
                }
                if touch { p.last_active = now; }
                proof {
                    StrMap::lemma_update_value(before, self.participants, i as int, self.participants.entries()[i as int].1);
                    assert forall|k: Seq<char>| #[trigger] self.participants@.contains_key(k) implies self.participants@[k].user_id.0@ == k by {
                        if k != user@ {
                            assert(before@.contains_key(k));
                        }
                    }
                }
            },
            None => {},
        }
    }

    /// Move a participant's cursor; the participant is active now.
    pub fn update_cursor(&mut self, user_id: UserId, cursor: CursorPosition) -> (r: Result<(), CollaborationError>)
        requires old(self).wf(),
        ensures
            final(self).wf(),
            r is Ok,
            final(self).members().dom() == old(self).members().dom(),
            old(self).members().contains_key(user_id.0@) ==>
                final(self).members()[user_id.0@].cursor_position == Some(cursor),
            forall|k: Seq<char>| #[trigger] final(self).members().contains_key(k) && k != user_id.0@
                ==> final(self).members()[k] == old(self).members()[k],
    {
        self.change_participant(user_id.0.as_str(), Some(cursor), None, None, true);
        Ok(())
    }

    /// Change a participant's selection; the participant is active now.
    pub fn update_selection(&mut self, user_id: UserId, selection: Selection) -> (r: Result<(), CollaborationError>)
        requires old(self).wf(),
        ensures
            final(self).wf(),
            r is Ok,
            final(self).members().dom() == old(self).members().dom(),
            old(self).members().contains_key(user_id.0@) ==>
                final(self).members()[user_id.0@].selection == Some(selection),
            forall|k: Seq<char>| #[trigger] final(self).members().contains_key(k) && k != user_id.0@
                ==> final(self).members()[k] == old(self).members()[k],
    {
        self.change_participant(user_id.0.as_str(), None, Some(selection), None, true);
        Ok(())
    }

    /// A participant follows another.
    pub fn follow(&mut self, follower_id: UserId, target_id: UserId) -> (r: Result<(), CollaborationError>)
        requires old(self).wf(),
        ensures
            final(self).wf(),
            r is Ok,
            final(self).members().dom() == old(self).members().dom(),
            old(self).members().contains_key(follower_id.0@) ==>
                final(self).members()[follower_id.0@].following == Some(target_id),
            forall|k: Seq<char>| #[trigger] final(self).members().contains_key(k) && k != follower_id.0@
                ==> final(self).members()[k] == old(self).members()[k],
    {
        self.change_participant(follower_id.0.as_str(), None, None, Some(Some(target_id)), false);
        Ok(())
    }

    /// A participant stops following.
    pub fn unfollow(&mut self, user_id: UserId) -> (r: Result<(), CollaborationError>)
        requires old(self).wf(),
        ensures
            final(self).wf(),
            r is Ok,
            final(self).members().dom() == old(self).members().dom(),
            old(self).members().contains_key(user_id.0@) ==>
                final(self).members()[user_id.0@].following is None,
            forall|k: Seq<char>| #[trigger] final(self).members().contains_key(k) && k != user_id.0@
                ==> final(self).members()[k] == old(self).members()[k],
    {
        self.change_participant(user_id.0.as_str(), None, None, Some(None), false);
        Ok(())
    }

    /// A participant answered a ping: active now.
    pub fn pong(&mut self, user_id: &UserId)
        requires old(self).wf(),
        ensures
            final(self).wf(),
            final(self).members().dom() == old(self).members().dom(),
            forall|k: Seq<char>| #[trigger] final(self).members().contains_key(k) && k != user_id.0@
                ==> final(self).members()[k] == old(self).members()[k],
    {
        self.change_participant(user_id.0.as_str(), None, None, None, true);
    }

    /// Send data to a participant: accepted (no transport yet).
    pub fn send_data(&self, target: UserId, data: Vec<u8>) -> (r: Result<(), CollaborationError>)
        ensures r is Ok,
    {
        Ok(())
    }

    /// Broadcast data: reaches nobody yet.
    pub fn broadcast(&self, data: Vec<u8>, exclude: Option<&UserId>) -> (r: Result<usize, CollaborationError>)
        ensures r == Ok::<usize, CollaborationError>(0),
    {
        Ok(0)
    }

    /// The participants, in the order they joined.
    pub fn participants(&self) -> (r: Vec<&Participant>)
        requires self.wf(),
        ensures
            r@.len() == self.member_order().len(),
            forall|i: int| 0 <= i < r@.len() ==> *r@[i] == #[trigger] self.members()[self.member_order()[i]],
    {
        let r = self.participants.values();
        proof { self.participants.lemma_key_seq(); }
        r
    }

    /// A participant by id.
    pub fn get_participant(&self, user_id: &UserId) -> (r: Option<&Participant>)
        requires self.wf(),
        ensures
            match r {
                Some(p) => self.members().contains_key(user_id.0@) && *p == self.members()[user_id.0@],
                None => !self.members().contains_key(user_id.0@),
            },
    {
        self.participants.get(user_id.0.as_str())
    }

    /// The session's state.
    pub fn state(&self) -> (s: SessionState)
        ensures s == self.state_spec(),
    {
        self.state
    }

    /// Close the session.
    pub fn close(&mut self)
        ensures
            final(self).state_spec() == SessionState::Closed,
            final(self).members() == old(self).members(),
            final(self).wf() == old(self).wf(),
    {
        self.state = SessionState::Closed;
    }
}

/// A session never takes a participant beyond its maximum: a join that
/// succeeds started below the maximum and adds at most one participant.
pub proof fn law_join_respects_capacity(before: Set<Seq<char>>, after: Set<Seq<char>>, user: Seq<char>, max: usize)
    requires
        before.finite(),
        before.len() < max,
        after == before.insert(user),
    ensures
        after.len() <= max,
{
    if before.contains(user) {
        assert(after =~= before);
    }
}

} // verus!
