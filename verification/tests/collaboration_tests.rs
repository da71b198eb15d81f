use parsec::collaboration::comments::{CommentManager, CommentStatus};
use parsec::collaboration::live_share::{LiveShareSession, SessionRole, SessionState};
use parsec::collaboration::presence::{Activity, DeviceInfo, PresenceEvent, PresenceManager, Status, UserPresence};
use parsec::collaboration::review::{ReviewManager, ReviewPriority, ReviewStatus};
use parsec::collaboration::{CollaborationConfig, CollaborationError, DocumentId, UserId};

fn user(s: &str) -> UserId {
    UserId(s.to_string())
}

fn remote(id: &str, status: Status, last_seen: i64) -> UserPresence {
    UserPresence {
        user_id: user(id),
        status,
        activity: None,
        last_seen,
        last_activity: last_seen,
        device: DeviceInfo {
            name: "laptop".to_string(),
            platform: "linux".to_string(),
            version: "1.0".to_string(),
            capabilities: vec![],
        },
        current_document: None,
        session_id: None,
    }
}

#[test]
fn default_collaboration_config() {
    let c = CollaborationConfig::default();
    assert_eq!(c.signaling_server, "wss://signaling.parsec.dev");
    assert_eq!(c.stun_servers.len(), 2);
    assert_eq!(c.heartbeat_interval, 30);
    assert_eq!(c.max_participants, 50);
    assert!(c.enable_encryption && c.compression);
}

#[test]
fn new_session_has_host_only() {
    let s = LiveShareSession::new("pair".to_string(), user("h"), None, 3).unwrap();
    assert_eq!(s.participant_count(), 1);
    assert_eq!(s.state(), SessionState::Active);
    let h = s.get_participant(&user("h")).unwrap();
    assert_eq!(h.name, "Host");
    assert_eq!(h.role, SessionRole::Host);
    assert!(!s.password_protected);
    assert_eq!(s.id.0.len(), 36);
}

#[test]
fn password_protected_session_needs_password() {
    let mut s = LiveShareSession::new("p".to_string(), user("h"), Some("pw".to_string()), 5).unwrap();
    match s.add_participant(user("u"), None) {
        Err(CollaborationError::PermissionDenied(m)) => assert_eq!(m, "Password required"),
        other => panic!("unexpected {:?}", other),
    }
    assert_eq!(s.participant_count(), 1);
    s.add_participant(user("u"), Some("anything".to_string())).unwrap();
    assert_eq!(s.participant_count(), 2);
    assert_eq!(s.get_participant(&user("u")).unwrap().name, "User u");
}

#[test]
fn full_session_refuses_join() {
    let mut s = LiveShareSession::new("p".to_string(), user("h"), None, 2).unwrap();
    s.add_participant(user("a"), None).unwrap();
    match s.add_participant(user("b"), None) {
        Err(CollaborationError::PermissionDenied(m)) => assert_eq!(m, "Session full"),
        other => panic!("unexpected {:?}", other),
    }
    assert_eq!(s.participant_count(), 2);
    assert!(s.get_participant(&user("b")).is_none());
}

#[test]
fn participants_listed_in_join_order_and_leave() {
    let mut s = LiveShareSession::new("p".to_string(), user("h"), None, 10).unwrap();
    s.add_participant(user("a"), None).unwrap();
    s.add_participant(user("b"), None).unwrap();
    let names: Vec<String> = s.participants().iter().map(|p| p.user_id.0.clone()).collect();
    assert_eq!(names, vec!["h", "a", "b"]);
    s.remove_participant(&user("a")).unwrap();
    assert_eq!(s.participant_count(), 2);
    assert_eq!(s.broadcast(vec![1, 2], None).unwrap(), 0);
    s.close();
    assert_eq!(s.state(), SessionState::Closed);
}

#[test]
fn presence_of_current_user_starts_online() {
    let mut m = PresenceManager::new(user("me"), "linux", "1.0");
    assert!(!m.is_online(&user("me")));
    m.update_presence(None, Some(Activity::Debugging)).unwrap();
    assert!(m.is_online(&user("me")));
    let p = m.get_presence(&user("me")).unwrap();
    assert_eq!(p.status, Status::Online);
    assert!(matches!(p.activity, Some(Activity::Debugging)));
    m.update_presence(Some(Status::Offline), None).unwrap();
    assert!(!m.is_online(&user("me")));
}

#[test]
fn remote_presence_joins_then_updates() {
    let mut m = PresenceManager::new(user("me"), "linux", "1.0");
    m.take_events();
    m.update_remote_presence(remote("bob", Status::Busy, 0));
    m.update_remote_presence(remote("bob", Status::Away, 0));
    let ev = m.take_events();
    assert_eq!(ev.len(), 2);
    assert!(matches!(&ev[0], PresenceEvent::UserJoined(u) if u.0 == "bob"));
    assert!(matches!(&ev[1], PresenceEvent::UserUpdated(u, _) if u.0 == "bob"));
    assert!(m.take_events().is_empty());
    m.remove_user(&user("bob"));
    assert!(m.get_presence(&user("bob")).is_none());
}

#[test]
fn heartbeat_marks_stale_users_offline() {
    let mut m = PresenceManager::new(user("me"), "linux", "1.0");
    m.update_remote_presence(remote("old", Status::Online, 0));
    m.update_remote_presence(remote("fresh", Status::Online, 100_000));
    m.take_events();
    m.heartbeat(130_000);
    assert!(!m.is_online(&user("old")));
    assert!(m.is_online(&user("fresh")));
    let online: Vec<String> = m.get_online_users().into_iter().map(|u| u.0).collect();
    assert_eq!(online, vec!["fresh"]);
    let ev = m.take_events();
    assert_eq!(ev.len(), 1);
    assert!(matches!(&ev[0], PresenceEvent::StatusChanged(u, Status::Offline) if u.0 == "old"));
}

#[test]
fn comment_thread_lifecycle() {
    let mut m = CommentManager::new();
    let t = m
        .create_thread(DocumentId("doc".to_string()), "Title".to_string(), "first".to_string(), user("a"), None)
        .unwrap();
    assert_eq!(t.comments.len(), 1);
    assert_eq!(t.comments[0].status, CommentStatus::Open);
    let c = m.add_comment(&t.id, "second".to_string(), user("b"), None).unwrap();
    m.add_reply(&t.id, &c.id, "reply".to_string(), user("a")).unwrap();
    m.resolve_comment(&t.id, &c.id, user("a")).unwrap();
    let stored = m.get_thread(&t.id).unwrap();
    assert_eq!(stored.comments.len(), 2);
    assert_eq!(stored.comments[1].status, CommentStatus::Resolved);
    assert_eq!(stored.comments[1].replies.len(), 1);
    assert_eq!(m.get_document_threads(&DocumentId("doc".to_string())).len(), 1);
    m.delete_thread(&t.id).unwrap();
    assert!(m.get_thread(&t.id).is_none());
    assert!(m.get_document_threads(&DocumentId("doc".to_string())).is_empty());
}

#[test]
fn comment_on_unknown_thread_is_refused() {
    let mut m = CommentManager::new();
    let id = parsec::collaboration::CommentId("nope".to_string());
    match m.add_comment(&id, "x".to_string(), user("a"), None) {
        Err(CollaborationError::SessionNotFound(s)) => assert_eq!(s, "nope"),
        other => panic!("unexpected {:?}", other),
    }
}

#[test]
fn review_lifecycle() {
    let mut m = ReviewManager::new();
    let r = m
        .create_review(
            DocumentId("doc".to_string()),
            "t".to_string(),
            "d".to_string(),
            user("author"),
            vec![user("rev")],
            ReviewPriority::High,
        )
        .unwrap();
    assert_eq!(r.status, ReviewStatus::Draft);
    assert_eq!(m.get_user_reviews(&user("rev")).len(), 1);
    assert!(m.get_pending_reviews(&user("rev")).is_empty());
    m.update_status(&r.id, ReviewStatus::Pending).unwrap();
    assert_eq!(m.get_pending_reviews(&user("rev")).len(), 1);
    let cr = m.add_change_request(&r.id, user("rev"), "fix".to_string(), None).unwrap();
    assert_eq!(m.get_review(&r.id).unwrap().status, ReviewStatus::ChangesRequested);
    m.resolve_change_request(&r.id, &cr.id).unwrap();
    assert!(m.get_review(&r.id).unwrap().change_requests[0].resolved);
    m.update_status(&r.id, ReviewStatus::Approved).unwrap();
    assert!(m.get_review(&r.id).unwrap().completed_at.is_some());
    m.delete_review(&r.id).unwrap();
    assert!(m.get_review(&r.id).is_none());
    assert!(m.get_user_reviews(&user("rev")).is_empty());
    assert!(m.get_document_reviews(&DocumentId("doc".to_string())).is_empty());
}

use parsec::collaboration::engine::{CollaborationEngine, CollaborationEvent};
use parsec::collaboration::SessionId;

#[test]
fn engine_sessions_open_join_and_close() {
    let mut host = CollaborationEngine::new(CollaborationConfig::default(), user("h"), "linux", "1.0");
    let id = host.create_session("pair".to_string(), None).unwrap();
    assert_eq!(host.list_sessions().len(), 1);
    assert_eq!(host.get_session(&id).unwrap().participant_count(), 1);
    let ev = host.take_events();
    assert!(matches!(&ev[..], [CollaborationEvent::SessionCreated(s, u)] if s.0 == id.0 && u.0 == "h"));
    match host.join_session(&SessionId("missing".to_string()), None) {
        Err(CollaborationError::SessionNotFound(m)) => assert_eq!(m, "missing"),
        other => panic!("unexpected {:?}", other),
    }
    host.leave_session(&id).unwrap();
    assert!(host.get_session(&id).is_none());
    let ev = host.take_events();
    assert!(matches!(&ev[..], [CollaborationEvent::SessionLeft(_, _), CollaborationEvent::SessionClosed(s)] if s.0 == id.0));
}

#[test]
fn engine_join_follows_session_rules() {
    let mut e = CollaborationEngine::new(CollaborationConfig::default(), user("h"), "linux", "1.0");
    let id = e.create_session("p".to_string(), Some("pw".to_string())).unwrap();
    match e.join_session(&id, None) {
        Err(CollaborationError::PermissionDenied(m)) => assert_eq!(m, "Password required"),
        other => panic!("unexpected {:?}", other),
    }
    e.take_events();
    e.join_session(&id, Some("pw".to_string())).unwrap();
    assert!(matches!(&e.take_events()[..], [CollaborationEvent::SessionJoined(_, u)] if u.0 == "h"));
    e.comments()
        .create_thread(DocumentId("d".to_string()), "t".to_string(), "c".to_string(), user("h"), None)
        .unwrap();
    assert_eq!(e.comments().get_all_threads().len(), 1);
    e.presence().update_presence(Some(Status::Busy), None).unwrap();
    assert!(e.presence().is_online(&user("h")));
}
