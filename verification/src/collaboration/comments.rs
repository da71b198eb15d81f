//! Comment threads on documents: threads by id, an index of each document's
//! threads in creation order, and the comments, replies and resolutions in
//! them. Times are milliseconds since the Unix epoch.
use vstd::prelude::*;
use crate::collaboration::{CollaborationError, CommentId, DocumentId, Range, UserId};
use crate::stamp::{is_hyphenated_uuid, now_millis};
use crate::strmap::StrMap;
use crate::text::str_eq;

verus! {

/// Comment severity.
#[derive(Debug, Clone, Copy, PartialEq, Eq, Structural)]
pub enum CommentSeverity {
    Info,
    Question,
    Suggestion,
    Warning,
    Error,
    Critical,
}

/// Comment status.
#[derive(Debug, Clone, Copy, PartialEq, Eq, Structural)]
pub enum CommentStatus {
    Open,
    Resolved,
    Closed,
    Reopened,
}

/// Comment reply.
#[derive(Debug)]
pub struct CommentReply {
    pub id: CommentId,
    pub content: String,
    pub author: UserId,
    pub created_at: i64,
    pub updated_at: i64,
    pub mentions: Vec<UserId>,
}

/// Comment.
#[derive(Debug)]
pub struct Comment {
    pub id: CommentId,
    pub document_id: DocumentId,
    pub thread_id: CommentId,
    pub parent_id: Option<CommentId>,
    pub content: String,
    pub author: UserId,
    pub range: Option<Range>,
    pub severity: CommentSeverity,
    pub status: CommentStatus,
    pub created_at: i64,
    pub updated_at: i64,
    pub resolved_at: Option<i64>,
    pub resolved_by: Option<UserId>,
    pub mentions: Vec<UserId>,
    pub labels: Vec<String>,
    pub attachments: Vec<String>,
    pub replies: Vec<CommentReply>,
}

/// Comment thread.
#[derive(Debug)]
pub struct CommentThread {
    pub id: CommentId,
    pub document_id: DocumentId,
    pub title: String,
    pub comments: Vec<Comment>,
    pub created_at: i64,
    pub updated_at: i64,
    pub participants: Vec<UserId>,
}

/// A new open comment of severity info, with no replies, mentions, labels,
/// attachments or resolution.
pub open spec fn new_comment(c: Comment, document: DocumentId, thread: CommentId, parent: Option<CommentId>,
    content: String, author: UserId, range: Option<Range>) -> bool {
    &&& c.document_id == document
    &&& c.thread_id == thread
    &&& c.parent_id == parent
    &&& c.content == content
    &&& c.author == author
    &&& c.range == range
    &&& c.severity == CommentSeverity::Info
    &&& c.status == CommentStatus::Open
    &&& c.resolved_at is None
    &&& c.resolved_by is None
    &&& c.mentions@.len() == 0
    &&& c.labels@.len() == 0
    &&& c.attachments@.len() == 0
    &&& c.replies@.len() == 0
}

/// The ids of an index entry, as values; none for an absent key.
pub open spec fn index_ids(m: Map<Seq<char>, Vec<CommentId>>, k: Seq<char>) -> Seq<Seq<char>> {
    if m.contains_key(k) { m[k]@.map_values(|c: CommentId| c.0@) } else { Seq::empty() }
}

/// Position of the first comment with id `id`, if any.
pub open spec fn comment_position(cs: Seq<Comment>, id: Seq<char>) -> Option<int> {
    if exists|j: int| 0 <= j < cs.len() && (#[trigger] cs[j]).id.0@ == id
        && forall|i: int| 0 <= i < j ==> (#[trigger] cs[i]).id.0@ != id {
        Some(choose|j: int| 0 <= j < cs.len() && (#[trigger] cs[j]).id.0@ == id
            && forall|i: int| 0 <= i < j ==> (#[trigger] cs[i]).id.0@ != id)
    } else {
        None
    }
}

proof fn lemma_comment_position(cs: Seq<Comment>, id: Seq<char>, j: int)
    requires comment_position(cs, id) == Some(j),
    ensures 0 <= j < cs.len(), cs[j].id.0@ == id,
{
}

fn find_comment(cs: &Vec<Comment>, id: &CommentId) -> (r: Option<usize>)
    ensures
        match r {
            Some(j) => comment_position(cs@, id.0@) == Some(j as int),
            None => comment_position(cs@, id.0@) is None,
        },
{
    let mut j: usize = 0;
    while j < cs.len()
        invariant
            j <= cs@.len(),
            forall|i: int| 0 <= i < j ==> (#[trigger] cs@[i]).id.0@ != id.0@,
        decreases cs.len() - j,
    {
        if str_eq(cs[j].id.0.as_str(), id.0.as_str()) {
            proof {
                let k = choose|k: int| 0 <= k < cs@.len() && (#[trigger] cs@[k]).id.0@ == id.0@
                    && forall|i: int| 0 <= i < k ==> (#[trigger] cs@[i]).id.0@ != id.0@;
                if k < j { assert(false); }
                if k > j { assert(cs@[j as int].id.0@ == id.0@); }
            }
            return Some(j);
        }
        j = j + 1;
    }
    None
}

fn contains_user(v: &Vec<UserId>, u: &UserId) -> (b: bool)
    ensures b == exists|i: int| 0 <= i < v@.len() && (#[trigger] v@[i]).0@ == u.0@,
{
    let mut i: usize = 0;
    while i < v.len()
        invariant
            i <= v@.len(),
            forall|j: int| 0 <= j < i ==> (#[trigger] v@[j]).0@ != u.0@,
        decreases v.len() - i,
    {
        if str_eq(v[i].0.as_str(), u.0.as_str()) {
            return true;
        }
        i = i + 1;
    }
    false
}

/// Comment manager.
pub struct CommentManager {
    threads: StrMap<CommentThread>,
    document_threads: StrMap<Vec<CommentId>>,
}

impl CommentManager {
    pub closed spec fn wf(&self) -> bool {
        self.threads.wf() && self.document_threads.wf()
    }

    pub closed spec fn threads_view(&self) -> Map<Seq<char>, CommentThread> {
        self.threads@
    }

    /// Thread ids in the order first stored.
    pub closed spec fn thread_order(&self) -> Seq<Seq<char>> {
        self.threads.key_seq()
    }

    pub closed spec fn doc_index(&self) -> Map<Seq<char>, Vec<CommentId>> {
        self.document_threads@
    }

    /// A manager with no threads.
    pub fn new() -> (m: Self)
        ensures
            m.wf(),
            m.threads_view() == Map::<Seq<char>, CommentThread>::empty(),
            m.doc_index() == Map::<Seq<char>, Vec<CommentId>>::empty(),
    {
        CommentManager { threads: StrMap::new(), document_threads: StrMap::new() }
    }

    fn push_index(index: &mut StrMap<Vec<CommentId>>, key: &str, id: CommentId)
        requires old(index).wf(),
        ensures
            final(index).wf(),
            final(index)@.dom() == old(index)@.dom().insert(key@),
            index_ids(final(index)@, key@) == index_ids(old(index)@, key@).push(id.0@),
            forall|k: Seq<char>| #[trigger] final(index)@.contains_key(k) && k != key@
                ==> final(index)@[k] == old(index)@[k],
    {
        match index.find(key) {
            Some(p) => {
                let ghost before = *index;
                proof { index.lemma_index_of(p as int); }
                let ids = index.value_at_mut(p);
                ids.push(id);
                proof {
                    StrMap::lemma_update_value(before, *index, p as int, index.entries()[p as int].1);
                    assert(index_ids(index@, key@) =~= index_ids(before@, key@).push(id.0@));
                }
            },
            None => {
                let mut ids: Vec<CommentId> = Vec::new();
                ids.push(id);
                index.insert(crate::text::owned(key), ids);
                assert(index_ids(index@, key@) =~= seq![id.0@]);
                assert(index_ids(index@, key@) =~= Seq::<Seq<char>>::empty().push(id.0@));
            },
        }
    }

    /// Start a thread on a document with a first comment by `author`; the
    /// thread gets a fresh id, is stored and joins the document's index.
    pub fn create_thread(&mut self, document_id: DocumentId, title: String, first_comment: String,
        author: UserId, range: Option<Range>) -> (r: Result<CommentThread, CollaborationError>)
        requires old(self).wf(),
        ensures
            final(self).wf(),
            r matches Ok(t) && {
                let s = final(self).threads_view()[t.id.0@];
                &&& is_hyphenated_uuid(t.id.0@)
                &&& final(self).threads_view().dom() == old(self).threads_view().dom().insert(t.id.0@)
                &&& forall|k: Seq<char>| #[trigger] final(self).threads_view().contains_key(k) && k != t.id.0@
                    ==> final(self).threads_view()[k] == old(self).threads_view()[k]
                &&& t.document_id == document_id && t.title == title
                &&& t.comments@.len() == 1
                &&& new_comment(t.comments@[0], document_id, t.id, None, first_comment, author, range)
                &&& t.participants@ == seq![author]
                &&& s.id == t.id && s.document_id == t.document_id && s.title == t.title
                &&& s.comments@.len() == 1
                &&& new_comment(s.comments@[0], document_id, t.id, None, first_comment, author, range)
                &&& s.comments@[0].id == t.comments@[0].id
                &&& s.participants@ == seq![author]
                &&& index_ids(final(self).doc_index(), document_id.0@)
                    == index_ids(old(self).doc_index(), document_id.0@).push(t.id.0@)
                &&& forall|k: Seq<char>| #[trigger] final(self).doc_index().contains_key(k) && k != document_id.0@
                    ==> final(self).doc_index()[k] == old(self).doc_index()[k]
            },
    {
        let thread_id = CommentId::new();
        let comment_id = CommentId::new();
        let now = now_millis();
        let make_comment = |cid: CommentId, doc: DocumentId, tid: CommentId, content: String, a: UserId| -> (c: Comment)
            ensures
                c.id == cid, c.document_id == doc, c.thread_id == tid, c.parent_id is None, c.content == content,
                c.author == a, c.range == range, c.severity == CommentSeverity::Info, c.status == CommentStatus::Open,
                c.resolved_at is None, c.resolved_by is None, c.mentions@.len() == 0, c.labels@.len() == 0,
                c.attachments@.len() == 0, c.replies@.len() == 0,
        {
            Comment {
                id: cid, document_id: doc, thread_id: tid, parent_id: None, content, author: a, range,
                severity: CommentSeverity::Info, status: CommentStatus::Open, created_at: now, updated_at: now,
                resolved_at: None, resolved_by: None, mentions: Vec::new(), labels: Vec::new(),
                attachments: Vec::new(), replies: Vec::new(),
            }
        };
        let stored_comment = make_comment(comment_id.duplicate(), document_id.duplicate(), thread_id.duplicate(),
            first_comment.clone(), author.duplicate());
        let returned_comment = make_comment(comment_id, document_id.duplicate(), thread_id.duplicate(),
            first_comment, author.duplicate());
        let stored = CommentThread {
            id: thread_id.duplicate(),
            document_id: document_id.duplicate(),
            title: title.clone(),
            comments: vec![stored_comment],
            created_at: now,
            updated_at: now,
            participants: vec![author.duplicate()],
        };
        let returned = CommentThread {
            id: thread_id.duplicate(),
            document_id: document_id.duplicate(),
            title,
            comments: vec![returned_comment],
            created_at: now,
            updated_at: now,
            participants: vec![author],
        };
        proof {
            assert(stored.participants@ =~= seq![returned.participants@[0]]);
            assert(returned.participants@ =~= seq![returned.participants@[0]]);
        }
        self.threads.insert(thread_id.0.clone(), stored);
        Self::push_index(&mut self.document_threads, document_id.0.as_str(), thread_id);
        Ok(returned)
    }

    /// Add a comment to a thread; the author joins the thread's participants if
    /// new. An unknown thread is refused with its id.
    pub fn add_comment(&mut self, thread_id: &CommentId, content: String, author: UserId,
        parent_id: Option<CommentId>) -> (r: Result<Comment, CollaborationError>)
        requires old(self).wf(),
        ensures
            final(self).wf(),
            final(self).doc_index() == old(self).doc_index(),
            final(self).threads_view().dom() == old(self).threads_view().dom(),
            !old(self).threads_view().contains_key(thread_id.0@) ==> {
                &&& r matches Err(CollaborationError::SessionNotFound(m)) && m@ == thread_id.0@
                &&& final(self).threads_view() == old(self).threads_view()
            },
            old(self).threads_view().contains_key(thread_id.0@) ==> (r matches Ok(c) && {
                let t = old(self).threads_view()[thread_id.0@];
                let u = final(self).threads_view()[thread_id.0@];
                &&& is_hyphenated_uuid(c.id.0@)
                &&& new_comment(c, t.document_id, *thread_id, parent_id, content, author, None)
                &&& u.comments@.len() == t.comments@.len() + 1
                &&& u.comments@.subrange(0, t.comments@.len() as int) == t.comments@
                &&& u.comments@.last().id == c.id
                &&& new_comment(u.comments@.last(), t.document_id, *thread_id, parent_id, content, author, None)
                &&& u.participants@ == (if exists|i: int| 0 <= i < t.participants@.len()
                        && (#[trigger] t.participants@[i]).0@ == author.0@ { t.participants@ } else { t.participants@.push(author) })
                &&& u.id == t.id && u.document_id == t.document_id && u.title == t.title
                &&& forall|k: Seq<char>| #[trigger] final(self).threads_view().contains_key(k) && k != thread_id.0@
                    ==> final(self).threads_view()[k] == old(self).threads_view()[k]
            }),
    {
        let i = match self.threads.find(thread_id.0.as_str()) {
            Some(i) => i,
            None => return Err(CollaborationError::SessionNotFound(thread_id.0.clone())),
        };
        let ghost before = self.threads;
        proof { self.threads.lemma_index_of(i as int); }
        let comment_id = CommentId::new();
        let now = now_millis();
        let thread = self.threads.value_at_mut(i);
        let stored = Comment {
            id: comment_id.duplicate(), document_id: thread.document_id.duplicate(), thread_id: thread_id.duplicate(),
            parent_id: match &parent_id { Some(p) => Some(p.duplicate()), None => None },
            content: content.clone(), author: author.duplicate(), range: None,
            severity: CommentSeverity::Info, status: CommentStatus::Open, created_at: now, updated_at: now,
            resolved_at: None, resolved_by: None, mentions: Vec::new(), labels: Vec::new(),
            attachments: Vec::new(), replies: Vec::new(),
        };
        let returned = Comment {
            id: comment_id, document_id: thread.document_id.duplicate(), thread_id: thread_id.duplicate(),
            parent_id, content, author: author.duplicate(), range: None,
            severity: CommentSeverity::Info, status: CommentStatus::Open, created_at: now, updated_at: now,
            resolved_at: None, resolved_by: None, mentions: Vec::new(), labels: Vec::new(),
            attachments: Vec::new(), replies: Vec::new(),
        };
        let ghost old_comments = thread.comments@;
        thread.comments.push(stored);
        assert(thread.comments@.subrange(0, old_comments.len() as int) =~= old_comments);
        thread.updated_at = now;
        if !contains_user(&thread.participants, &author) {
            thread.participants.push(author);
        }
        proof {
            StrMap::lemma_update_value(before, self.threads, i as int, self.threads.entries()[i as int].1);
        }
        Ok(returned)
    }

    /// Reply to a comment of a thread. An unknown thread or comment is refused
    /// with its id.
    #[verifier::rlimit(40)]
    pub fn add_reply(&mut self, thread_id: &CommentId, comment_id: &CommentId, content: String,
        author: UserId) -> (r: Result<CommentReply, CollaborationError>)
        requires old(self).wf(),
        ensures
            final(self).wf(),
            final(self).doc_index() == old(self).doc_index(),
            final(self).threads_view().dom() == old(self).threads_view().dom(),
            !old(self).threads_view().contains_key(thread_id.0@) ==> {
                &&& r matches Err(CollaborationError::SessionNotFound(m)) && m@ == thread_id.0@
                &&& final(self).threads_view() == old(self).threads_view()
            },
            old(self).threads_view().contains_key(thread_id.0@)
                && comment_position(old(self).threads_view()[thread_id.0@].comments@, comment_id.0@) is None ==> {
                &&& r matches Err(CollaborationError::SessionNotFound(m)) && m@ == comment_id.0@
                &&& final(self).threads_view() == old(self).threads_view()
            },
            old(self).threads_view().contains_key(thread_id.0@)
                && comment_position(old(self).threads_view()[thread_id.0@].comments@, comment_id.0@) is Some
                ==> (r matches Ok(rep) && {
                let j = comment_position(old(self).threads_view()[thread_id.0@].comments@, comment_id.0@)->0;
                let t = old(self).threads_view()[thread_id.0@];
                let u = final(self).threads_view()[thread_id.0@];
                let c = t.comments@[j];
                let d = u.comments@[j];
                &&& is_hyphenated_uuid(rep.id.0@)
                &&& rep.content == content && rep.author == author && rep.mentions@.len() == 0
                &&& u.comments@.len() == t.comments@.len()
                &&& forall|x: int| 0 <= x < t.comments@.len() && x != j ==> #[trigger] u.comments@[x] == t.comments@[x]
                &&& d.replies@.len() == c.replies@.len() + 1
                &&& d.replies@.subrange(0, c.replies@.len() as int) == c.replies@
                &&& d.replies@.last().id == rep.id && d.replies@.last().content == content && d.replies@.last().author == author
                &&& d.id == c.id && d.content == c.content && d.status == c.status && d.author == c.author
                &&& forall|k: Seq<char>| #[trigger] final(self).threads_view().contains_key(k) && k != thread_id.0@
                    ==> final(self).threads_view()[k] == old(self).threads_view()[k]
            }),
    {
        let i = match self.threads.find(thread_id.0.as_str()) {
            Some(i) => i,
            None => return Err(CollaborationError::SessionNotFound(thread_id.0.clone())),
        };
        proof { self.threads.lemma_index_of(i as int); }
        let j = match find_comment(&self.threads.entry_at(i).1.comments, comment_id) {
            Some(j) => j,
            None => return Err(CollaborationError::SessionNotFound(comment_id.0.clone())),
        };
        proof { lemma_comment_position(self.threads.entries()[i as int].1.comments@, comment_id.0@, j as int); }
        let ghost before = self.threads;
        let reply_id = CommentId::new();
        let now = now_millis();
        let stored = CommentReply {
            id: reply_id.duplicate(), content: content.clone(), author: author.duplicate(),
            created_at: now, updated_at: now, mentions: Vec::new(),
        };
        let returned = CommentReply {
            id: reply_id, content, author, created_at: now, updated_at: now, mentions: Vec::new(),
        };
        let thread = self.threads.value_at_mut(i);
        let ghost old_comments = thread.comments@;
        let mut c = thread.comments.remove(j);
        let ghost old_replies = c.replies@;
        c.replies.push(stored);
        assert(c.replies@.subrange(0, old_replies.len() as int) =~= old_replies);
        c.updated_at = now;
        thread.comments.insert(j, c);
        thread.updated_at = now;
        proof {
            assert forall|x: int| 0 <= x < old_comments.len() && x != j implies #[trigger] thread.comments@[x] == old_comments[x] by {
                if x < j {
                } else {
                }
            }
            StrMap::lemma_update_value(before, self.threads, i as int, self.threads.entries()[i as int].1);
        }
        Ok(returned)
    }

    /// Resolve a comment of a thread: resolved now by `resolved_by`. An unknown
    /// thread or comment is refused with its id.
    #[verifier::rlimit(40)]
    pub fn resolve_comment(&mut self, thread_id: &CommentId, comment_id: &CommentId, resolved_by: UserId)
        -> (r: Result<(), CollaborationError>)
        requires old(self).wf(),
        ensures
            final(self).wf(),
            final(self).doc_index() == old(self).doc_index(),
            final(self).threads_view().dom() == old(self).threads_view().dom(),
            !old(self).threads_view().contains_key(thread_id.0@) ==> {
                &&& r matches Err(CollaborationError::SessionNotFound(m)) && m@ == thread_id.0@
                &&& final(self).threads_view() == old(self).threads_view()
            },
            old(self).threads_view().contains_key(thread_id.0@)
                && comment_position(old(self).threads_view()[thread_id.0@].comments@, comment_id.0@) is None ==> {
                &&& r matches Err(CollaborationError::SessionNotFound(m)) && m@ == comment_id.0@
                &&& final(self).threads_view() == old(self).threads_view()
            },
            old(self).threads_view().contains_key(thread_id.0@)
                && comment_position(old(self).threads_view()[thread_id.0@].comments@, comment_id.0@) is Some
                ==> {
                let j = comment_position(old(self).threads_view()[thread_id.0@].comments@, comment_id.0@)->0;
                let t = old(self).threads_view()[thread_id.0@];
                let u = final(self).threads_view()[thread_id.0@];
                let c = t.comments@[j];
                let d = u.comments@[j];
                &&& r is Ok
                &&& u.comments@.len() == t.comments@.len()
                &&& forall|x: int| 0 <= x < t.comments@.len() && x != j ==> #[trigger] u.comments@[x] == t.comments@[x]
                &&& d.status == CommentStatus::Resolved
                &&& d.resolved_at is Some
                &&& d.resolved_by == Some(resolved_by)
                &&& d.id == c.id && d.content == c.content && d.author == c.author && d.replies == c.replies
                &&& forall|k: Seq<char>| #[trigger] final(self).threads_view().contains_key(k) && k != thread_id.0@
                    ==> final(self).threads_view()[k] == old(self).threads_view()[k]
            },
    {
        let i = match self.threads.find(thread_id.0.as_str()) {
            Some(i) => i,
            None => return Err(CollaborationError::SessionNotFound(thread_id.0.clone())),
        };
        proof { self.threads.lemma_index_of(i as int); }
        let j = match find_comment(&self.threads.entry_at(i).1.comments, comment_id) {
            Some(j) => j,
            None => return Err(CollaborationError::SessionNotFound(comment_id.0.clone())),
        };
        proof { lemma_comment_position(self.threads.entries()[i as int].1.comments@, comment_id.0@, j as int); }
        let ghost before = self.threads;
        let now = now_millis();
        let thread = self.threads.value_at_mut(i);
        let ghost old_comments = thread.comments@;
        let mut c = thread.comments.remove(j);
        c.status = CommentStatus::Resolved;
        c.resolved_at = Some(now);
        c.resolved_by = Some(resolved_by);
        c.updated_at = now;
        thread.comments.insert(j, c);
        thread.updated_at = now;
        proof {
            assert forall|x: int| 0 <= x < old_comments.len() && x != j implies #[trigger] thread.comments@[x] == old_comments[x] by {
                if x < j {
                } else {
                }
            }
            StrMap::lemma_update_value(before, self.threads, i as int, self.threads.entries()[i as int].1);
        }
        Ok(())
    }

    /// Change the text of a comment of a thread. An unknown thread or comment is
    /// refused with its id.
    #[verifier::rlimit(40)]
    pub fn update_comment(&mut self, thread_id: &CommentId, comment_id: &CommentId, content: String)
        -> (r: Result<(), CollaborationError>)
        requires old(self).wf(),
        ensures
            final(self).wf(),
            final(self).doc_index() == old(self).doc_index(),
            final(self).threads_view().dom() == old(self).threads_view().dom(),
            !old(self).threads_view().contains_key(thread_id.0@) ==> {
                &&& r matches Err(CollaborationError::SessionNotFound(m)) && m@ == thread_id.0@
                &&& final(self).threads_view() == old(self).threads_view()
            },
            old(self).threads_view().contains_key(thread_id.0@)
                && comment_position(old(self).threads_view()[thread_id.0@].comments@, comment_id.0@) is None ==> {
                &&& r matches Err(CollaborationError::SessionNotFound(m)) && m@ == comment_id.0@
                &&& final(self).threads_view() == old(self).threads_view()
            },
            old(self).threads_view().contains_key(thread_id.0@)
                && comment_position(old(self).threads_view()[thread_id.0@].comments@, comment_id.0@) is Some
                ==> {
                let j = comment_position(old(self).threads_view()[thread_id.0@].comments@, comment_id.0@)->0;
                let t = old(self).threads_view()[thread_id.0@];
                let u = final(self).threads_view()[thread_id.0@];
                let c = t.comments@[j];
                let d = u.comments@[j];
                &&& r is Ok
                &&& u.comments@.len() == t.comments@.len()
                &&& forall|x: int| 0 <= x < t.comments@.len() && x != j ==> #[trigger] u.comments@[x] == t.comments@[x]
                &&& d.content == content
                &&& d.id == c.id && d.status == c.status && d.author == c.author && d.replies == c.replies
                &&& forall|k: Seq<char>| #[trigger] final(self).threads_view().contains_key(k) && k != thread_id.0@
                    ==> final(self).threads_view()[k] == old(self).threads_view()[k]
            },
    {
        let i = match self.threads.find(thread_id.0.as_str()) {
            Some(i) => i,
            None => return Err(CollaborationError::SessionNotFound(thread_id.0.clone())),
        };
        proof { self.threads.lemma_index_of(i as int); }
        let j = match find_comment(&self.threads.entry_at(i).1.comments, comment_id) {
            Some(j) => j,
            None => return Err(CollaborationError::SessionNotFound(comment_id.0.clone())),
        };
        proof { lemma_comment_position(self.threads.entries()[i as int].1.comments@, comment_id.0@, j as int); }
        let ghost before = self.threads;
        let now = now_millis();
        let thread = self.threads.value_at_mut(i);
        let ghost old_comments = thread.comments@;
        let mut c = thread.comments.remove(j);
        c.content = content;
        c.updated_at = now;
        thread.comments.insert(j, c);
        thread.updated_at = now;
        proof {
            assert forall|x: int| 0 <= x < old_comments.len() && x != j implies #[trigger] thread.comments@[x] == old_comments[x] by {
                if x < j {
                } else {
                }
            }
            StrMap::lemma_update_value(before, self.threads, i as int, self.threads.entries()[i as int].1);
        }
        Ok(())
    }

    /// A thread by id.
    pub fn get_thread(&self, thread_id: &CommentId) -> (r: Option<&CommentThread>)
        requires self.wf(),
        ensures
            match r {
                Some(t) => self.threads_view().contains_key(thread_id.0@) && *t == self.threads_view()[thread_id.0@],
                None => !self.threads_view().contains_key(thread_id.0@),
            },
    {
        self.threads.get(thread_id.0.as_str())
    }

    /// The stored threads of a document, in the order of its index.
    pub fn get_document_threads(&self, document_id: &DocumentId) -> (r: Vec<&CommentThread>)
        requires self.wf(),
        ensures
            ({
                let live = index_ids(self.doc_index(), document_id.0@).filter(|k: Seq<char>| self.threads_view().contains_key(k));
                &&& r@.len() == live.len()
                &&& forall|i: int| 0 <= i < r@.len() ==> *#[trigger] r@[i] == self.threads_view()[live[i]]
            }),
    {
        let mut r: Vec<&CommentThread> = Vec::new();
        match self.document_threads.get(document_id.0.as_str()) {
            Some(ids) => {
                let ghost all = ids@.map_values(|c: CommentId| c.0@);
                let mut i: usize = 0;
                while i < ids.len()
                    invariant
                        self.wf(),
                        i <= ids@.len(),
                        all == ids@.map_values(|c: CommentId| c.0@),
                        r@.len() == all.subrange(0, i as int).filter(|k: Seq<char>| self.threads_view().contains_key(k)).len(),
                        forall|x: int| 0 <= x < r@.len() ==> *#[trigger] r@[x] == self.threads_view()[
                            all.subrange(0, i as int).filter(|k: Seq<char>| self.threads_view().contains_key(k))[x]],
                    decreases ids.len() - i,
                {
                    proof {
                        assert(all.subrange(0, i + 1).drop_last() =~= all.subrange(0, i as int));
                        reveal(Seq::filter);
                    }
                    match self.threads.get(ids[i].0.as_str()) {
                        Some(t) => {
                            r.push(t);
                        },
                        None => {},
                    }
                    i = i + 1;
                }
                assert(all.subrange(0, ids@.len() as int) =~= all);
            },
            None => {
                assert(index_ids(self.doc_index(), document_id.0@).filter(|k: Seq<char>| self.threads_view().contains_key(k))
                    =~= Seq::<Seq<char>>::empty()) by { reveal(Seq::filter); }
            },
        }
        r
    }

    /// Every thread, in the order first stored.
    pub fn get_all_threads(&self) -> (r: Vec<&CommentThread>)
        requires self.wf(),
        ensures
            r@.len() == self.thread_order().len(),
            forall|i: int| 0 <= i < r@.len() ==> *r@[i] == #[trigger] self.threads_view()[self.thread_order()[i]],
    {
        let r = self.threads.values();
        proof { self.threads.lemma_key_seq(); }
        r
    }

    /// Delete a thread and drop it from its document's index.
    pub fn delete_thread(&mut self, thread_id: &CommentId) -> (r: Result<(), CollaborationError>)
        requires old(self).wf(),
        ensures
            final(self).wf(),
            r is Ok,
            final(self).threads_view() == old(self).threads_view().remove(thread_id.0@),
            !old(self).threads_view().contains_key(thread_id.0@) ==> final(self).doc_index() == old(self).doc_index(),
            old(self).threads_view().contains_key(thread_id.0@) ==> {
                let d = old(self).threads_view()[thread_id.0@].document_id.0@;
                &&& final(self).doc_index().dom() == old(self).doc_index().dom()
                &&& index_ids(final(self).doc_index(), d)
                    == index_ids(old(self).doc_index(), d).filter(|k: Seq<char>| k != thread_id.0@)
                &&& forall|k: Seq<char>| #[trigger] final(self).doc_index().contains_key(k) && k != d
                    ==> final(self).doc_index()[k] == old(self).doc_index()[k]
            },
    {
        match self.threads.remove(thread_id.0.as_str()) {
            Some(thread) => {
                match self.document_threads.find(thread.document_id.0.as_str()) {
                    Some(p) => {
                        let ghost before = self.document_threads;
                        proof { self.document_threads.lemma_index_of(p as int); }
                        let ids = self.document_threads.value_at_mut(p);
                        let ghost all = ids@.map_values(|c: CommentId| c.0@);
                        let mut kept: Vec<CommentId> = Vec::new();
                        let mut i: usize = 0;
                        while i < ids.len()
                            invariant
                                i <= ids@.len(),
                                all == ids@.map_values(|c: CommentId| c.0@),
                                kept@.map_values(|c: CommentId| c.0@) == all.subrange(0, i as int).filter(|k: Seq<char>| k != thread_id.0@),
                            decreases ids.len() - i,
                        {
                            proof {
                                assert(all.subrange(0, i + 1).drop_last() =~= all.subrange(0, i as int));
                                reveal(Seq::filter);
                            }
                            if !str_eq(ids[i].0.as_str(), thread_id.0.as_str()) {
                                kept.push(ids[i].duplicate());
                            }
                            assert(kept@.map_values(|c: CommentId| c.0@) =~= all.subrange(0, i + 1).filter(|k: Seq<char>| k != thread_id.0@));
                            i = i + 1;
                        }
                        assert(all.subrange(0, ids@.len() as int) =~= all);
                        *ids = kept;
                        proof {
                            StrMap::lemma_update_value(before, self.document_threads, p as int, self.document_threads.entries()[p as int].1);
                        }
                    },
                    None => {
                        assert(index_ids(self.document_threads@, thread.document_id.0@).filter(|k: Seq<char>| k != thread_id.0@)
                            =~= Seq::<Seq<char>>::empty()) by { reveal(Seq::filter); }
                    },
                }
            },
            None => {},
        }
        Ok(())
    }
}

} // verus!
