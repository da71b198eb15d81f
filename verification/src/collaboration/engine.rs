//! The collaboration engine: live-share sessions by id, the presence, comment
//! and review managers, and the events waiting for listeners.
use vstd::prelude::*;
use crate::collaboration::comments::CommentManager;
use crate::collaboration::crdt::{CrdtManager, Edit};
use crate::collaboration::encryption::EncryptionManager;
use crate::collaboration::live_share::{fresh_participant, LiveShareSession, Participant, SessionRole, SessionState};
use crate::collaboration::presence::{Activity, PresenceManager, UserPresence};
use crate::collaboration::review::ReviewManager;
use crate::collaboration::{CollaborationConfig, CollaborationError, CommentId, DocumentId, ReviewId, SessionId, UserId};
use crate::stamp::is_hyphenated_uuid;
use crate::strmap::StrMap;

verus! {

/// Collaboration event.
#[derive(Debug)]
pub enum CollaborationEvent {
    SessionCreated(SessionId, UserId),
    SessionJoined(SessionId, UserId),
    SessionLeft(SessionId, UserId),
    SessionClosed(SessionId),
    ParticipantJoined(SessionId, Participant),
    ParticipantLeft(SessionId, UserId),
    ParticipantUpdated(SessionId, Participant),
    DocumentOpened(DocumentId, UserId),
    DocumentClosed(DocumentId, UserId),
    DocumentChanged(DocumentId, Edit),
    CommentAdded(CommentId),
    CommentUpdated(CommentId),
    CommentResolved(CommentId),
    CommentReplied(CommentId, CommentId),
    ReviewCreated(ReviewId),
    ReviewUpdated(ReviewId),
    ReviewApproved(ReviewId),
    ReviewChangesRequested(ReviewId),
    PresenceChanged(UserId, UserPresence),
    ActivityStarted(UserId, Activity),
    ActivityEnded(UserId, Activity),
    Error(String),
}

/// A session just created by `host`: active, with the host as its only
/// participant.
pub open spec fn new_session(s: LiveShareSession, name: String, host: UserId, protected: bool, max: usize) -> bool {
    &&& s.wf()
    &&& is_hyphenated_uuid(s.id.0@)
    &&& s.name == name
    &&& s.host == host
    &&& s.members().dom() == set![host.0@]
    &&& fresh_participant(s.members()[host.0@], host.0@, "Host"@, SessionRole::Host)
    &&& s.state_spec() == SessionState::Active
    &&& s.password_protected == protected
    &&& s.max_participants == max
}

/// Session `t` is session `s` with `user` joined as a participant.
pub open spec fn joined(s: LiveShareSession, t: LiveShareSession, user: Seq<char>) -> bool {
    &&& t.wf()
    &&& t.members().dom() == s.members().dom().insert(user)
    &&& fresh_participant(t.members()[user], user, "User "@ + user, SessionRole::Participant)
    &&& forall|k: Seq<char>| #[trigger] t.members().contains_key(k) && k != user ==> t.members()[k] == s.members()[k]
    &&& t.state_spec() == s.state_spec()
    &&& t.max_participants == s.max_participants
    &&& t.password_protected == s.password_protected
}

/// Session `t` is session `s` without `user`.
pub open spec fn left(s: LiveShareSession, t: LiveShareSession, user: Seq<char>) -> bool {
    &&& t.wf()
    &&& t.members() == s.members().remove(user)
    &&& t.state_spec() == s.state_spec()
    &&& t.max_participants == s.max_participants
    &&& t.password_protected == s.password_protected
}

/// The collaboration engine.
pub struct CollaborationEngine {
    config: CollaborationConfig,
    sessions: StrMap<LiveShareSession>,
    presence: PresenceManager,
    comments: CommentManager,
    reviews: ReviewManager,
    crdt: CrdtManager,
    encryption: EncryptionManager,
    current_user: UserId,
    events: Vec<CollaborationEvent>,
}

impl CollaborationEngine {
    /// The sessions are well formed and stored under their ids.
    pub closed spec fn sessions_wf(&self) -> bool {
        &&& self.sessions.wf()
        &&& forall|k: Seq<char>| #[trigger] self.sessions@.contains_key(k) ==>
            self.sessions@[k].wf() && self.sessions@[k].id.0@ == k
    }

    pub open spec fn wf(&self) -> bool {
        &&& self.sessions_wf()
        &&& self.presence_spec().wf()
        &&& self.comments_spec().wf()
        &&& self.reviews_spec().wf()
    }

    /// The sessions by id.
    pub closed spec fn sessions_view(&self) -> Map<Seq<char>, LiveShareSession> {
        self.sessions@
    }

    /// The session ids, in the order first stored.
    pub closed spec fn session_ids(&self) -> Seq<Seq<char>> {
        self.sessions.key_seq()
    }

    pub closed spec fn presence_spec(&self) -> PresenceManager {
        self.presence
    }

    pub closed spec fn comments_spec(&self) -> CommentManager {
        self.comments
    }

    pub closed spec fn reviews_spec(&self) -> ReviewManager {
        self.reviews
    }

    pub closed spec fn user(&self) -> UserId {
        self.current_user
    }

    pub closed spec fn config_spec(&self) -> CollaborationConfig {
        self.config
    }

    /// The events not yet taken, oldest first.
    pub closed spec fn outbox(&self) -> Seq<CollaborationEvent> {
        self.events@
    }

    /// An engine for the current user with no sessions, comments or reviews;
    /// the presence manager reports the user's platform and version.
    pub fn new(config: CollaborationConfig, current_user: UserId, platform: &str, version: &str) -> (e: Self)
        ensures
            e.wf(),
            e.user() == current_user,
            e.config_spec() == config,
            e.sessions_view() == Map::<Seq<char>, LiveShareSession>::empty(),
            e.presence_spec().current() == current_user.0@,
            e.outbox().len() == 0,
    {
        let presence = PresenceManager::new(current_user.duplicate(), platform, version);
        CollaborationEngine {
            config,
            sessions: StrMap::new(),
            presence,
            comments: CommentManager::new(),
            reviews: ReviewManager::new(),
            crdt: CrdtManager::new(),
            encryption: EncryptionManager::new(),
            current_user,
            events: Vec::new(),
        }
    }

    /// Start a session hosted by the current user, with the configured maximum
    /// of participants, store it under its fresh id and announce it; its id
    /// comes back.
    pub fn create_session(&mut self, name: String, password: Option<String>) -> (r: Result<SessionId, CollaborationError>)
        requires old(self).wf(),
        ensures
            final(self).wf(),
            final(self).user() == old(self).user(),
            final(self).presence_spec() == old(self).presence_spec(),
            r matches Ok(id) && {
                &&& final(self).sessions_view().dom() == old(self).sessions_view().dom().insert(id.0@)
                &&& new_session(final(self).sessions_view()[id.0@], name, old(self).user(), password is Some,
                        old(self).config_spec().max_participants)
                &&& forall|k: Seq<char>| #[trigger] final(self).sessions_view().contains_key(k) && k != id.0@
                    ==> final(self).sessions_view()[k] == old(self).sessions_view()[k]
                &&& final(self).outbox() == old(self).outbox().push(CollaborationEvent::SessionCreated(id, old(self).user()))
            },
    {
        let protected = password.is_some();
        let session = match LiveShareSession::new(name, self.current_user.duplicate(), password, self.config.max_participants) {
            Ok(s) => s,
            Err(e) => return Err(e),
        };
        let id = session.id.duplicate();
        let ghost before = self.sessions@;
        let ghost s = session;
        self.sessions.insert(id.0.clone(), session);
        proof {
            assert forall|k: Seq<char>| #[trigger] self.sessions@.contains_key(k) implies
                self.sessions@[k].wf() && self.sessions@[k].id.0@ == k by {
                if k != id.0@ {
                    assert(before.contains_key(k));
                }
            }
            assert(self.sessions@[id.0@] == s);
        }
        self.events.push(CollaborationEvent::SessionCreated(id.duplicate(), self.current_user.duplicate()));
        Ok(id)
    }

    /// The current user joins a session; see `LiveShareSession::add_participant`
    /// for when a session refuses. A joined session is announced; an unknown
    /// session is refused with its id.
    pub fn join_session(&mut self, session_id: &SessionId, password: Option<String>) -> (r: Result<(), CollaborationError>)
        requires old(self).wf(),
        ensures
            final(self).wf(),
            final(self).user() == old(self).user(),
            final(self).presence_spec() == old(self).presence_spec(),
            final(self).sessions_view().dom() == old(self).sessions_view().dom(),
            forall|k: Seq<char>| #[trigger] final(self).sessions_view().contains_key(k) && k != session_id.0@
                ==> final(self).sessions_view()[k] == old(self).sessions_view()[k],
            !old(self).sessions_view().contains_key(session_id.0@) ==> {
                &&& r matches Err(CollaborationError::SessionNotFound(m)) && m@ == session_id.0@
                &&& final(self).outbox() == old(self).outbox()
            },
            old(self).sessions_view().contains_key(session_id.0@) ==> ({
                let s = old(self).sessions_view()[session_id.0@];
                let t = final(self).sessions_view()[session_id.0@];
                let user = old(self).user().0@;
                &&& s.password_protected && password is None ==> {
                    &&& r matches Err(CollaborationError::PermissionDenied(m)) && m@ == "Password required"@
                    &&& t.members() == s.members()
                    &&& final(self).outbox() == old(self).outbox()
                }
                &&& !(s.password_protected && password is None) && s.members().dom().len() >= s.max_participants ==> {
                    &&& r matches Err(CollaborationError::PermissionDenied(m)) && m@ == "Session full"@
                    &&& t.members() == s.members()
                    &&& final(self).outbox() == old(self).outbox()
                }
                &&& !(s.password_protected && password is None) && s.members().dom().len() < s.max_participants ==> {
                    &&& r is Ok
                    &&& joined(s, t, user)
                    &&& final(self).outbox() == old(self).outbox().push(
                        CollaborationEvent::SessionJoined(*session_id, old(self).user()))
                }
            }),
    {
        match self.sessions.find(session_id.0.as_str()) {
            Some(p) => {
                let ghost before = self.sessions;
                proof { self.sessions.lemma_index_of(p as int); }
                let user = self.current_user.duplicate();
                let session = self.sessions.value_at_mut(p);
                let result = session.add_participant(user, password);
                proof {
                    StrMap::lemma_update_value(before, self.sessions, p as int, self.sessions.entries()[p as int].1);
                    assert forall|k: Seq<char>| #[trigger] self.sessions@.contains_key(k) implies
                        self.sessions@[k].wf() && self.sessions@[k].id.0@ == k by {
                        if k != session_id.0@ {
                            assert(before@.contains_key(k));
                        }
                    }
                }
                match result {
                    Ok(()) => {
                        self.events.push(CollaborationEvent::SessionJoined(session_id.duplicate(), self.current_user.duplicate()));
                        Ok(())
                    },
                    Err(e) => Err(e),
                }
            },
            None => Err(CollaborationError::SessionNotFound(session_id.0.clone())),
        }
    }

    /// The current user leaves a session, which is announced; a session left
    /// with no participants is closed, forgotten and announced as closed.
    /// Unknown sessions are left alone.
    pub fn leave_session(&mut self, session_id: &SessionId) -> (r: Result<(), CollaborationError>)
        requires old(self).wf(),
        ensures
            final(self).wf(),
            r is Ok,
            final(self).user() == old(self).user(),
            final(self).presence_spec() == old(self).presence_spec(),
            forall|k: Seq<char>| #[trigger] final(self).sessions_view().contains_key(k) && k != session_id.0@
                ==> final(self).sessions_view()[k] == old(self).sessions_view()[k],
            !old(self).sessions_view().contains_key(session_id.0@) ==> {
                &&& final(self).sessions_view() == old(self).sessions_view()
                &&& final(self).outbox() == old(self).outbox()
            },
            old(self).sessions_view().contains_key(session_id.0@) ==> ({
                let s = old(self).sessions_view()[session_id.0@];
                let user = old(self).user().0@;
                let event = CollaborationEvent::SessionLeft(*session_id, old(self).user());
                &&& s.members().remove(user).dom().len() == 0 ==> {
                    &&& final(self).sessions_view() == old(self).sessions_view().remove(session_id.0@)
                    &&& final(self).outbox() == old(self).outbox().push(event).push(CollaborationEvent::SessionClosed(*session_id))
                }
                &&& s.members().remove(user).dom().len() > 0 ==> {
                    &&& final(self).sessions_view().dom() == old(self).sessions_view().dom()
                    &&& left(s, final(self).sessions_view()[session_id.0@], user)
                    &&& final(self).outbox() == old(self).outbox().push(event)
                }
            }),
    {
        match self.sessions.find(session_id.0.as_str()) {
            Some(p) => {
                let ghost before = self.sessions;
                proof { self.sessions.lemma_index_of(p as int); }
                let empty;
                {
                    let session = self.sessions.value_at_mut(p);
                    let _ = session.remove_participant(&self.current_user);
                    empty = session.participant_count() == 0;
                }
                proof {
                    StrMap::lemma_update_value(before, self.sessions, p as int, self.sessions.entries()[p as int].1);
                    assert forall|k: Seq<char>| #[trigger] self.sessions@.contains_key(k) implies
                        self.sessions@[k].wf() && self.sessions@[k].id.0@ == k by {
                        if k != session_id.0@ {
                            assert(before@.contains_key(k));
                        }
                    }
                }
                self.events.push(CollaborationEvent::SessionLeft(session_id.duplicate(), self.current_user.duplicate()));
                if empty {
                    let ghost mid = self.sessions@;
                    self.sessions.remove(session_id.0.as_str());
                    proof {
                        assert forall|k: Seq<char>| #[trigger] self.sessions@.contains_key(k) implies
                            self.sessions@[k].wf() && self.sessions@[k].id.0@ == k by {
                            assert(mid.contains_key(k));
                        }
                        assert(self.sessions@ =~= before@.remove(session_id.0@));
                    }
                    self.events.push(CollaborationEvent::SessionClosed(session_id.duplicate()));
                }
                Ok(())
            },
            None => Ok(()),
        }
    }

    /// A session by id.
    pub fn get_session(&self, session_id: &SessionId) -> (r: Option<&LiveShareSession>)
        requires self.wf(),
        ensures
            match r {
                Some(s) => self.sessions_view().contains_key(session_id.0@) && *s == self.sessions_view()[session_id.0@],
                None => !self.sessions_view().contains_key(session_id.0@),
            },
    {
        self.sessions.get(session_id.0.as_str())
    }

    /// The sessions, in the order first stored.
    pub fn list_sessions(&self) -> (r: Vec<&LiveShareSession>)
        requires self.wf(),
        ensures
            r@.len() == self.session_ids().len(),
            forall|i: int| 0 <= i < r@.len() ==> *r@[i] == #[trigger] self.sessions_view()[self.session_ids()[i]],
    {
        let r = self.sessions.values();
        proof { self.sessions.lemma_key_seq(); }
        r
    }

    /// The presence manager.
    pub fn presence(&mut self) -> (r: &mut PresenceManager)
        ensures
            *r == old(self).presence_spec(),
            final(self).presence_spec() == *final(r),
            final(self).sessions_wf() == old(self).sessions_wf(),
            final(self).sessions_view() == old(self).sessions_view(),
            final(self).comments_spec() == old(self).comments_spec(),
            final(self).reviews_spec() == old(self).reviews_spec(),
            final(self).user() == old(self).user(),
            final(self).outbox() == old(self).outbox(),
    {
        &mut self.presence
    }

    /// The comment manager.
    pub fn comments(&mut self) -> (r: &mut CommentManager)
        ensures
            *r == old(self).comments_spec(),
            final(self).comments_spec() == *final(r),
            final(self).sessions_wf() == old(self).sessions_wf(),
            final(self).sessions_view() == old(self).sessions_view(),
            final(self).presence_spec() == old(self).presence_spec(),
            final(self).reviews_spec() == old(self).reviews_spec(),
            final(self).user() == old(self).user(),
            final(self).outbox() == old(self).outbox(),
    {
        &mut self.comments
    }

    /// The review manager.
    pub fn reviews(&mut self) -> (r: &mut ReviewManager)
        ensures
            *r == old(self).reviews_spec(),
            final(self).reviews_spec() == *final(r),
            final(self).sessions_wf() == old(self).sessions_wf(),
            final(self).sessions_view() == old(self).sessions_view(),
            final(self).presence_spec() == old(self).presence_spec(),
            final(self).comments_spec() == old(self).comments_spec(),
            final(self).user() == old(self).user(),
            final(self).outbox() == old(self).outbox(),
    {
        &mut self.reviews
    }

    /// The replica manager.
    pub fn crdt(&self) -> (r: &CrdtManager)
        ensures *r == CrdtManager,
    {
        &self.crdt
    }

    /// Take the events waiting for the listeners.
    pub fn take_events(&mut self) -> (ev: Vec<CollaborationEvent>)
        ensures
            ev@ == old(self).outbox(),
            final(self).outbox().len() == 0,
            final(self).sessions_view() == old(self).sessions_view(),
            final(self).sessions_wf() == old(self).sessions_wf(),
            final(self).presence_spec() == old(self).presence_spec(),
            final(self).comments_spec() == old(self).comments_spec(),
            final(self).reviews_spec() == old(self).reviews_spec(),
            final(self).user() == old(self).user(),
    {
        let mut ev: Vec<CollaborationEvent> = Vec::new();
        std::mem::swap(&mut ev, &mut self.events);
        ev
    }
}

} // verus!
