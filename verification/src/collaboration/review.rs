//! Code reviews: reviews by id, indexed by document and by the users taking
//! part (author and assigned users), with their change requests, feedback and
//! inline comments. Times are milliseconds since the Unix epoch.
use vstd::prelude::*;
use crate::collaboration::{CollaborationError, DocumentId, Range, ReviewId, UserId};
use crate::stamp::{is_hyphenated_uuid, new_uuid, now_millis};
use crate::strmap::{list_at, push_to, StrMap};
use crate::text::str_eq;

verus! {

/// Review status.
#[derive(Debug, Clone, Copy, PartialEq, Eq, Structural)]
pub enum ReviewStatus {
    Draft,
    Pending,
    InProgress,
    Approved,
    ChangesRequested,
    Rejected,
    Merged,
    Closed,
}

/// Review priority.
#[derive(Debug, Clone, Copy, PartialEq, Eq, Structural)]
pub enum ReviewPriority {
    Low,
    Medium,
    High,
    Critical,
}

/// Change request.
#[derive(Debug)]
pub struct ChangeRequest {
    pub id: String,
    pub reviewer: UserId,
    pub description: String,
    pub range: Option<Range>,
    pub created_at: i64,
    pub resolved: bool,
    pub resolved_at: Option<i64>,
}

/// Inline comment.
#[derive(Debug)]
pub struct InlineComment {
    pub id: String,
    pub range: Range,
    pub content: String,
    pub created_at: i64,
    pub resolved: bool,
}

/// Feedback.
#[derive(Debug)]
pub struct Feedback {
    pub id: String,
    pub reviewer: UserId,
    pub content: String,
    pub created_at: i64,
    pub updated_at: i64,
    pub inline_comments: Vec<InlineComment>,
}

/// Review.
#[derive(Debug)]
pub struct Review {
    pub id: ReviewId,
    pub document_id: DocumentId,
    pub title: String,
    pub description: String,
    pub author: UserId,
    pub reviewers: Vec<UserId>,
    pub status: ReviewStatus,
    pub priority: ReviewPriority,
    pub created_at: i64,
    pub updated_at: i64,
    pub completed_at: Option<i64>,
    pub change_requests: Vec<ChangeRequest>,
    pub feedback: Vec<Feedback>,
    pub labels: Vec<String>,
    pub branch: Option<String>,
    pub commit_hash: Option<String>,
    pub base_commit: Option<String>,
}

/// The ids listed under `k`, as values.
pub open spec fn ids_at(m: Map<Seq<char>, Vec<ReviewId>>, k: Seq<char>) -> Seq<Seq<char>> {
    list_at(m, k).map_values(|r: ReviewId| r.0@)
}

/// The user ids, as values.
pub open spec fn user_ids(v: Seq<UserId>) -> Seq<Seq<char>> {
    v.map_values(|u: UserId| u.0@)
}

/// For user `u`, the id `id` once for each time `u` occurs in `users`.
pub open spec fn occurrences(users: Seq<Seq<char>>, u: Seq<char>, id: Seq<char>) -> Seq<Seq<char>> {
    users.filter(|x: Seq<char>| x == u).map_values(|x: Seq<char>| id)
}

/// The list without the entries equal to `x`.
pub open spec fn without(s: Seq<Seq<char>>, x: Seq<char>) -> Seq<Seq<char>> {
    s.filter(|k: Seq<char>| k != x)
}

/// A review finishes when approved, rejected or merged.
pub open spec fn completes(s: ReviewStatus) -> bool {
    s == ReviewStatus::Approved || s == ReviewStatus::Rejected || s == ReviewStatus::Merged
}

/// A review is pending for its users while pending or in progress.
pub open spec fn is_pending(s: ReviewStatus) -> bool {
    s == ReviewStatus::Pending || s == ReviewStatus::InProgress
}

fn copy_users(v: &Vec<UserId>) -> (r: Vec<UserId>)
    ensures r@ == v@,
{
    let mut r: Vec<UserId> = Vec::new();
    let mut i: usize = 0;
    while i < v.len()
        invariant
            i <= v@.len(),
            r@ == v@.subrange(0, i as int),
        decreases v.len() - i,
    {
        r.push(v[i].duplicate());
        i = i + 1;
        assert(r@ =~= v@.subrange(0, i as int));
    }
    assert(v@.subrange(0, v@.len() as int) =~= v@);
    r
}

proof fn lemma_filter_twice(s: Seq<Seq<char>>, x: Seq<char>)
    ensures without(without(s, x), x) == without(s, x),
    decreases s.len(),
{
    reveal(Seq::filter);
    if s.len() > 0 {
        lemma_filter_twice(s.drop_last(), x);
        let f = without(s.drop_last(), x);
        if s.last() != x {
            assert(f.push(s.last()).drop_last() =~= f);
        }
    }
}

/// Review manager.
pub struct ReviewManager {
    reviews: StrMap<Review>,
    document_reviews: StrMap<Vec<ReviewId>>,
    user_reviews: StrMap<Vec<ReviewId>>,
}

/// The reviews named by `ids` that are stored, with `keep` applied.
pub open spec fn stored_reviews(reviews: Map<Seq<char>, Review>, ids: Seq<Seq<char>>, pending_only: bool) -> Seq<Seq<char>> {
    ids.filter(|k: Seq<char>| reviews.contains_key(k) && (!pending_only || is_pending(reviews[k].status)))
}

impl ReviewManager {
    pub closed spec fn wf(&self) -> bool {
        self.reviews.wf() && self.document_reviews.wf() && self.user_reviews.wf()
    }

    pub closed spec fn reviews_view(&self) -> Map<Seq<char>, Review> {
        self.reviews@
    }

    pub closed spec fn doc_index(&self) -> Map<Seq<char>, Vec<ReviewId>> {
        self.document_reviews@
    }

    pub closed spec fn user_index(&self) -> Map<Seq<char>, Vec<ReviewId>> {
        self.user_reviews@
    }

    /// A manager with no reviews.
    pub fn new() -> (m: Self)
        ensures
            m.wf(),
            m.reviews_view() == Map::<Seq<char>, Review>::empty(),
            m.doc_index() == Map::<Seq<char>, Vec<ReviewId>>::empty(),
            m.user_index() == Map::<Seq<char>, Vec<ReviewId>>::empty(),
    {
        ReviewManager { reviews: StrMap::new(), document_reviews: StrMap::new(), user_reviews: StrMap::new() }
    }

    fn push_users(index: &mut StrMap<Vec<ReviewId>>, users: &Vec<UserId>, id: &ReviewId)
        requires old(index).wf(),
        ensures
            final(index).wf(),
            forall|u: Seq<char>| #[trigger] ids_at(final(index)@, u)
                == ids_at(old(index)@, u) + occurrences(user_ids(users@), u, id.0@),
            forall|u: Seq<char>| #[trigger] final(index)@.contains_key(u)
                <==> (old(index)@.contains_key(u) || user_ids(users@).contains(u)),
    {
        let ghost start = index@;
        let mut i: usize = 0;
        while i < users.len()
            invariant
                index.wf(),
                i <= users@.len(),
                forall|u: Seq<char>| #[trigger] ids_at(index@, u)
                    == ids_at(start, u) + occurrences(user_ids(users@).subrange(0, i as int), u, id.0@),
                forall|u: Seq<char>| #[trigger] index@.contains_key(u)
                    <==> (start.contains_key(u) || user_ids(users@).subrange(0, i as int).contains(u)),
            decreases users.len() - i,
        {
            let ghost before = index@;
            let ghost pre = user_ids(users@).subrange(0, i as int);
            let ghost post = user_ids(users@).subrange(0, i + 1);
            let key = users[i].0.as_str();
            push_to(index, key, id.duplicate());
            proof {
                assert(post.drop_last() =~= pre);
                assert(post.last() == key@);
                reveal(Seq::filter);
                assert forall|u: Seq<char>| #[trigger] ids_at(index@, u)
                    == ids_at(start, u) + occurrences(post, u, id.0@) by {
                    if u == key@ {
                        assert(ids_at(index@, u) =~= ids_at(before, u).push(id.0@));
                        assert(occurrences(post, u, id.0@) =~= occurrences(pre, u, id.0@).push(id.0@));
                        assert(ids_at(start, u) + occurrences(post, u, id.0@)
                            =~= (ids_at(start, u) + occurrences(pre, u, id.0@)).push(id.0@));
                    } else {
                        assert(occurrences(post, u, id.0@) =~= occurrences(pre, u, id.0@));
                        if index@.contains_key(u) {
                            assert(index@[u] == before[u]);
                        }
                    }
                }
                assert forall|u: Seq<char>| #[trigger] index@.contains_key(u)
                    <==> (start.contains_key(u) || post.contains(u)) by {
                    if pre.contains(u) {
                        let j = choose|j: int| 0 <= j < pre.len() && #[trigger] pre[j] == u;
                        assert(post[j] == u);
                    }
                    if post.contains(u) && u != key@ {
                        let j = choose|j: int| 0 <= j < post.len() && #[trigger] post[j] == u;
                        assert(j < i);
                        assert(pre[j] == u);
                    }
                    if u == key@ {
                        assert(post[i as int] == u);
                    }
                }
            }
            i = i + 1;
        }
        proof { assert(user_ids(users@).subrange(0, users@.len() as int) =~= user_ids(users@)); }
    }

    /// Create a draft review of a document, stored under a fresh id and indexed
    /// under the document, the author and each assigned user (once per mention).
    pub fn create_review(&mut self, document_id: DocumentId, title: String, description: String,
        author: UserId, reviewers: Vec<UserId>, priority: ReviewPriority) -> (r: Result<Review, CollaborationError>)
        requires old(self).wf(),
        ensures
            final(self).wf(),
            r matches Ok(v) && {
                let id = v.id.0@;
                let s = final(self).reviews_view()[id];
                let users = seq![author.0@] + user_ids(reviewers@);
                &&& is_hyphenated_uuid(id)
                &&& v.document_id == document_id && v.title == title && v.description == description
                &&& v.author == author && v.reviewers@ == reviewers@ && v.priority == priority
                &&& v.status == ReviewStatus::Draft && v.completed_at is None
                &&& v.change_requests@.len() == 0 && v.feedback@.len() == 0 && v.labels@.len() == 0
                &&& v.branch is None && v.commit_hash is None && v.base_commit is None
                &&& final(self).reviews_view().dom() == old(self).reviews_view().dom().insert(id)
                &&& s.id == v.id && s.document_id == document_id && s.title == title && s.author == author
                &&& s.reviewers@ == reviewers@ && s.status == ReviewStatus::Draft && s.priority == priority
                &&& s.change_requests@.len() == 0 && s.feedback@.len() == 0
                &&& forall|k: Seq<char>| #[trigger] final(self).reviews_view().contains_key(k) && k != id
                    ==> final(self).reviews_view()[k] == old(self).reviews_view()[k]
                &&& ids_at(final(self).doc_index(), document_id.0@) == ids_at(old(self).doc_index(), document_id.0@).push(id)
                &&& forall|k: Seq<char>| #[trigger] final(self).doc_index().contains_key(k) && k != document_id.0@
                    ==> final(self).doc_index()[k] == old(self).doc_index()[k]
                &&& forall|u: Seq<char>| #[trigger] ids_at(final(self).user_index(), u)
                    == ids_at(old(self).user_index(), u) + occurrences(users, u, id)
            },
    {
        let review_id = ReviewId::new();
        let now = now_millis();
        let stored = Review {
            id: review_id.duplicate(), document_id: document_id.duplicate(), title: title.clone(),
            description: description.clone(), author: author.duplicate(), reviewers: copy_users(&reviewers),
            status: ReviewStatus::Draft, priority, created_at: now, updated_at: now, completed_at: None,
            change_requests: Vec::new(), feedback: Vec::new(), labels: Vec::new(),
            branch: None, commit_hash: None, base_commit: None,
        };
        self.reviews.insert(review_id.0.clone(), stored);
        push_to(&mut self.document_reviews, document_id.0.as_str(), review_id.duplicate());
        let mut users: Vec<UserId> = Vec::new();
        users.push(author.duplicate());
        let mut i: usize = 0;
        while i < reviewers.len()
            invariant
                i <= reviewers@.len(),
                users@ == seq![author] + reviewers@.subrange(0, i as int),
            decreases reviewers.len() - i,
        {
            users.push(reviewers[i].duplicate());
            i = i + 1;
            assert(users@ =~= seq![author] + reviewers@.subrange(0, i as int));
        }
        assert(reviewers@.subrange(0, reviewers@.len() as int) =~= reviewers@);
        Self::push_users(&mut self.user_reviews, &users, &review_id);
        proof {
            assert(user_ids(users@) =~= seq![author.0@] + user_ids(reviewers@));
        }
        let returned = Review {
            id: review_id, document_id, title, description, author, reviewers,
            status: ReviewStatus::Draft, priority, created_at: now, updated_at: now, completed_at: None,
            change_requests: Vec::new(), feedback: Vec::new(), labels: Vec::new(),
            branch: None, commit_hash: None, base_commit: None,
        };
        Ok(returned)
    }

    /// Change a review's status; approving, rejecting or merging completes it
    /// now. Unknown reviews are left alone.
    pub fn update_status(&mut self, review_id: &ReviewId, status: ReviewStatus) -> (r: Result<(), CollaborationError>)
        requires old(self).wf(),
        ensures
            final(self).wf(),
            r is Ok,
            final(self).doc_index() == old(self).doc_index(),
            final(self).user_index() == old(self).user_index(),
            final(self).reviews_view().dom() == old(self).reviews_view().dom(),
            forall|k: Seq<char>| #[trigger] final(self).reviews_view().contains_key(k) && k != review_id.0@
                ==> final(self).reviews_view()[k] == old(self).reviews_view()[k],
            old(self).reviews_view().contains_key(review_id.0@) ==> {
                let v = old(self).reviews_view()[review_id.0@];
                let w = final(self).reviews_view()[review_id.0@];
                &&& w.status == status
                &&& completes(status) ==> w.completed_at is Some
                &&& !completes(status) ==> w.completed_at == v.completed_at
                &&& w.id == v.id && w.reviewers == v.reviewers && w.author == v.author
                &&& w.change_requests == v.change_requests && w.feedback == v.feedback
            },
    {
        match self.reviews.find(review_id.0.as_str()) {
            Some(i) => {
                let ghost before = self.reviews;
                proof { self.reviews.lemma_index_of(i as int); }
                let now = now_millis();
                let v = self.reviews.value_at_mut(i);
                v.status = status;
                v.updated_at = now;
                if status == ReviewStatus::Approved || status == ReviewStatus::Rejected || status == ReviewStatus::Merged {
                    v.completed_at = Some(now);
                }
                proof { StrMap::lemma_update_value(before, self.reviews, i as int, self.reviews.entries()[i as int].1); }
            },
            None => {},
        }
        Ok(())
    }

    /// Add an assigned user not yet on a review, indexing the review under them.
    /// Unknown reviews are left alone.
    pub fn add_reviewer(&mut self, review_id: &ReviewId, reviewer: UserId) -> (r: Result<(), CollaborationError>)
        requires old(self).wf(),
        ensures
            final(self).wf(),
            r is Ok,
            final(self).doc_index() == old(self).doc_index(),
            final(self).reviews_view().dom() == old(self).reviews_view().dom(),
            forall|k: Seq<char>| #[trigger] final(self).reviews_view().contains_key(k) && k != review_id.0@
                ==> final(self).reviews_view()[k] == old(self).reviews_view()[k],
            ({
                let fresh = old(self).reviews_view().contains_key(review_id.0@)
                    && !user_ids(old(self).reviews_view()[review_id.0@].reviewers@).contains(reviewer.0@);
                &&& fresh ==> final(self).reviews_view()[review_id.0@].reviewers@
                    == old(self).reviews_view()[review_id.0@].reviewers@.push(reviewer)
                &&& fresh ==> ids_at(final(self).user_index(), reviewer.0@) == ids_at(old(self).user_index(), reviewer.0@).push(review_id.0@)
                &&& fresh ==> forall|k: Seq<char>| #[trigger] final(self).user_index().contains_key(k) && k != reviewer.0@
                    ==> final(self).user_index()[k] == old(self).user_index()[k]
                &&& !fresh ==> final(self).reviews_view() == old(self).reviews_view()
                &&& !fresh ==> final(self).user_index() == old(self).user_index()
            }),
    {
        match self.reviews.find(review_id.0.as_str()) {
            Some(i) => {
                let ghost before = self.reviews;
                proof { self.reviews.lemma_index_of(i as int); }
                let present = {
                    let (_, v) = self.reviews.entry_at(i);
                    let mut found = false;
                    let mut j: usize = 0;
                    while j < v.reviewers.len()
                        invariant
                            j <= v.reviewers@.len(),
                            found == exists|t: int| 0 <= t < j && (#[trigger] v.reviewers@[t]).0@ == reviewer.0@,
                        decreases v.reviewers.len() - j,
                    {
                        if str_eq(v.reviewers[j].0.as_str(), reviewer.0.as_str()) {
                            found = true;
                        }
                        j = j + 1;
                    }
                    proof {
                        let us = user_ids(v.reviewers@);
                        if found {
                            let t = choose|t: int| 0 <= t < j && (#[trigger] v.reviewers@[t]).0@ == reviewer.0@;
                            assert(us[t] == reviewer.0@);
                        } else {
                            assert forall|t: int| 0 <= t < us.len() implies us[t] != reviewer.0@ by {
                                assert(us[t] == v.reviewers@[t].0@);
                            }
                        }
                    }
                    found
                };
                if !present {
                    let now = now_millis();
                    let key = reviewer.0.clone();
                    let v = self.reviews.value_at_mut(i);
                    v.reviewers.push(reviewer);
                    v.updated_at = now;
                    proof { StrMap::lemma_update_value(before, self.reviews, i as int, self.reviews.entries()[i as int].1); }
                    push_to(&mut self.user_reviews, key.as_str(), review_id.duplicate());
                    proof {
                        assert(ids_at(self.user_reviews@, key@) =~= ids_at(old(self).user_reviews@, key@).push(review_id.0@));
                    }
                }
            },
            None => {},
        }
        Ok(())
    }

    /// Remove every mention of a assigned user from a review, and the review from that
    /// user's index. Unknown reviews are left alone.
    pub fn remove_reviewer(&mut self, review_id: &ReviewId, reviewer: &UserId) -> (r: Result<(), CollaborationError>)
        requires old(self).wf(),
        ensures
            final(self).wf(),
            r is Ok,
            final(self).doc_index() == old(self).doc_index(),
            final(self).reviews_view().dom() == old(self).reviews_view().dom(),
            forall|k: Seq<char>| #[trigger] final(self).reviews_view().contains_key(k) && k != review_id.0@
                ==> final(self).reviews_view()[k] == old(self).reviews_view()[k],
            !old(self).reviews_view().contains_key(review_id.0@) ==> final(self).reviews_view() == old(self).reviews_view(),
            !old(self).reviews_view().contains_key(review_id.0@) ==> final(self).user_index() == old(self).user_index(),
            old(self).reviews_view().contains_key(review_id.0@) ==> {
                &&& user_ids(final(self).reviews_view()[review_id.0@].reviewers@)
                    == user_ids(old(self).reviews_view()[review_id.0@].reviewers@).filter(|u: Seq<char>| u != reviewer.0@)
                &&& final(self).user_index().dom() == old(self).user_index().dom()
                &&& ids_at(final(self).user_index(), reviewer.0@)
                    == without(ids_at(old(self).user_index(), reviewer.0@), review_id.0@)
                &&& forall|k: Seq<char>| #[trigger] final(self).user_index().contains_key(k) && k != reviewer.0@
                    ==> final(self).user_index()[k] == old(self).user_index()[k]
            },
    {
        match self.reviews.find(review_id.0.as_str()) {
            Some(i) => {
                let ghost before = self.reviews;
                proof { self.reviews.lemma_index_of(i as int); }
                let now = now_millis();
                let v = self.reviews.value_at_mut(i);
                let ghost all = user_ids(v.reviewers@);
                let mut kept: Vec<UserId> = Vec::new();
                let mut j: usize = 0;
                while j < v.reviewers.len()
                    invariant
                        j <= v.reviewers@.len(),
                        all == user_ids(v.reviewers@),
                        user_ids(kept@) == all.subrange(0, j as int).filter(|u: Seq<char>| u != reviewer.0@),
                    decreases v.reviewers.len() - j,
                {
                    proof {
                        assert(all.subrange(0, j + 1).drop_last() =~= all.subrange(0, j as int));
                        reveal(Seq::filter);
                    }
                    if !str_eq(v.reviewers[j].0.as_str(), reviewer.0.as_str()) {
                        kept.push(v.reviewers[j].duplicate());
                    }
                    assert(user_ids(kept@) =~= all.subrange(0, j + 1).filter(|u: Seq<char>| u != reviewer.0@));
                    j = j + 1;
                }
                assert(all.subrange(0, all.len() as int) =~= all);
                v.reviewers = kept;
                v.updated_at = now;
                proof { StrMap::lemma_update_value(before, self.reviews, i as int, self.reviews.entries()[i as int].1); }
                Self::drop_from(&mut self.user_reviews, reviewer.0.as_str(), review_id);
            },
            None => {},
        }
        Ok(())
    }

    fn drop_from(index: &mut StrMap<Vec<ReviewId>>, key: &str, id: &ReviewId)
        requires old(index).wf(),
        ensures
            final(index).wf(),
            final(index)@.dom() == old(index)@.dom(),
            ids_at(final(index)@, key@) == without(ids_at(old(index)@, key@), id.0@),
            forall|k: Seq<char>| #[trigger] final(index)@.contains_key(k) && k != key@
                ==> final(index)@[k] == old(index)@[k],
    {
        match index.find(key) {
            Some(p) => {
                let ghost before = *index;
                proof { index.lemma_index_of(p as int); }
                let ids = index.value_at_mut(p);
                let ghost all = ids@.map_values(|r: ReviewId| r.0@);
                let mut kept: Vec<ReviewId> = Vec::new();
                let mut i: usize = 0;
                while i < ids.len()
                    invariant
                        i <= ids@.len(),
                        all == ids@.map_values(|r: ReviewId| r.0@),
                        kept@.map_values(|r: ReviewId| r.0@) == without(all.subrange(0, i as int), id.0@),
                    decreases ids.len() - i,
                {
                    proof {
                        assert(all.subrange(0, i + 1).drop_last() =~= all.subrange(0, i as int));
                        reveal(Seq::filter);
                    }
                    if !str_eq(ids[i].0.as_str(), id.0.as_str()) {
                        kept.push(ids[i].duplicate());
                    }
                    assert(kept@.map_values(|r: ReviewId| r.0@) =~= without(all.subrange(0, i + 1), id.0@));
                    i = i + 1;
                }
                assert(all.subrange(0, ids@.len() as int) =~= all);
                *ids = kept;
                proof { StrMap::lemma_update_value(before, *index, p as int, index.entries()[p as int].1); }
            },
            None => {
                assert(without(ids_at(index@, key@), id.0@) =~= Seq::<Seq<char>>::empty()) by {
                    reveal(Seq::filter);
                }
            },
        }
    }

    /// Ask for a change on a review: recorded unresolved under a fresh id, and
    /// the review's status becomes "changes requested". An unknown review is
    /// refused with its id.
    pub fn add_change_request(&mut self, review_id: &ReviewId, reviewer: UserId, description: String,
        range: Option<Range>) -> (r: Result<ChangeRequest, CollaborationError>)
        requires old(self).wf(),
        ensures
            final(self).wf(),
            final(self).doc_index() == old(self).doc_index(),
            final(self).user_index() == old(self).user_index(),
            final(self).reviews_view().dom() == old(self).reviews_view().dom(),
            forall|k: Seq<char>| #[trigger] final(self).reviews_view().contains_key(k) && k != review_id.0@
                ==> final(self).reviews_view()[k] == old(self).reviews_view()[k],
            !old(self).reviews_view().contains_key(review_id.0@) ==> {
                &&& r matches Err(CollaborationError::SessionNotFound(m)) && m@ == review_id.0@
                &&& final(self).reviews_view() == old(self).reviews_view()
            },
            old(self).reviews_view().contains_key(review_id.0@) ==> (r matches Ok(c) && {
                let v = old(self).reviews_view()[review_id.0@];
                let w = final(self).reviews_view()[review_id.0@];
                &&& is_hyphenated_uuid(c.id@)
                &&& c.reviewer == reviewer && c.description == description && c.range == range
                &&& !c.resolved && c.resolved_at is None
                &&& w.change_requests@.len() == v.change_requests@.len() + 1
                &&& w.change_requests@.subrange(0, v.change_requests@.len() as int) == v.change_requests@
                &&& w.change_requests@.last().id == c.id && !w.change_requests@.last().resolved
                &&& w.status == ReviewStatus::ChangesRequested
                &&& w.reviewers == v.reviewers && w.feedback == v.feedback && w.author == v.author
            }),
    {
        let i = match self.reviews.find(review_id.0.as_str()) {
            Some(i) => i,
            None => return Err(CollaborationError::SessionNotFound(review_id.0.clone())),
        };
        let ghost before = self.reviews;
        proof { self.reviews.lemma_index_of(i as int); }
        let id = new_uuid();
        let now = now_millis();
        let stored = ChangeRequest {
            id: id.clone(), reviewer: reviewer.duplicate(), description: description.clone(), range,
            created_at: now, resolved: false, resolved_at: None,
        };
        let returned = ChangeRequest {
            id, reviewer, description, range, created_at: now, resolved: false, resolved_at: None,
        };
        let v = self.reviews.value_at_mut(i);
        let ghost old_requests = v.change_requests@;
        v.change_requests.push(stored);
        assert(v.change_requests@.subrange(0, old_requests.len() as int) =~= old_requests);
        v.updated_at = now;
        v.status = ReviewStatus::ChangesRequested;
        proof { StrMap::lemma_update_value(before, self.reviews, i as int, self.reviews.entries()[i as int].1); }
        Ok(returned)
    }

    /// Mark the first change request with the given id resolved now; unknown
    /// reviews or requests are left alone.
    #[verifier::rlimit(40)]
    pub fn resolve_change_request(&mut self, review_id: &ReviewId, request_id: &str) -> (r: Result<(), CollaborationError>)
        requires old(self).wf(),
        ensures
            final(self).wf(),
            r is Ok,
            final(self).doc_index() == old(self).doc_index(),
            final(self).user_index() == old(self).user_index(),
            final(self).reviews_view().dom() == old(self).reviews_view().dom(),
            forall|k: Seq<char>| #[trigger] final(self).reviews_view().contains_key(k) && k != review_id.0@
                ==> final(self).reviews_view()[k] == old(self).reviews_view()[k],
            old(self).reviews_view().contains_key(review_id.0@) ==> {
                let v = old(self).reviews_view()[review_id.0@];
                let w = final(self).reviews_view()[review_id.0@];
                &&& w.change_requests@.len() == v.change_requests@.len()
                &&& forall|x: int| 0 <= x < v.change_requests@.len() ==> (#[trigger] w.change_requests@[x]).id == v.change_requests@[x].id
                &&& forall|x: int| 0 <= x < v.change_requests@.len() ==> (#[trigger] w.change_requests@[x]).resolved
                    == (v.change_requests@[x].resolved || (v.change_requests@[x].id@ == request_id@
                        && forall|y: int| 0 <= y < x ==> v.change_requests@[y].id@ != request_id@))
                &&& w.status == v.status && w.reviewers == v.reviewers && w.feedback == v.feedback
            },
    {
        match self.reviews.find(review_id.0.as_str()) {
            Some(i) => {
                let ghost before = self.reviews;
                proof { self.reviews.lemma_index_of(i as int); }
                let now = now_millis();
                let v = self.reviews.value_at_mut(i);
                let ghost old_requests = v.change_requests@;
                let mut j: usize = 0;
                let mut hit: Option<usize> = None;
                while j < v.change_requests.len()
                    invariant
                        j <= v.change_requests@.len(),
                        v.change_requests@ == old_requests,
                        hit is None ==> forall|y: int| 0 <= y < j ==> old_requests[y].id@ != request_id@,
                        hit matches Some(h) ==> h < old_requests.len() && old_requests[h as int].id@ == request_id@
                            && forall|y: int| 0 <= y < h ==> old_requests[y].id@ != request_id@,
                    decreases v.change_requests.len() - j,
                {
                    if hit.is_none() && str_eq(v.change_requests[j].id.as_str(), request_id) {
                        hit = Some(j);
                    }
                    j = j + 1;
                }
                match hit {
                    Some(h) => {
                        let mut c = v.change_requests.remove(h);
                        c.resolved = true;
                        c.resolved_at = Some(now);
                        v.change_requests.insert(h, c);
                        v.updated_at = now;
                        proof {
                            assert forall|x: int| 0 <= x < old_requests.len() implies (#[trigger] v.change_requests@[x]).resolved
                                == (old_requests[x].resolved || (old_requests[x].id@ == request_id@
                                    && forall|y: int| 0 <= y < x ==> old_requests[y].id@ != request_id@)) by {
                                if x > h {
                                    assert(old_requests[h as int].id@ == request_id@);
                                }
                            }
                        }
                    },
                    None => {},
                }
                proof { StrMap::lemma_update_value(before, self.reviews, i as int, self.reviews.entries()[i as int].1); }
            },
            None => {},
        }
        Ok(())
    }

    /// Add feedback to a review under a fresh id. An unknown review is refused
    /// with its id.
    pub fn add_feedback(&mut self, review_id: &ReviewId, reviewer: UserId, content: String)
        -> (r: Result<Feedback, CollaborationError>)
        requires old(self).wf(),
        ensures
            final(self).wf(),
            final(self).doc_index() == old(self).doc_index(),
            final(self).user_index() == old(self).user_index(),
            final(self).reviews_view().dom() == old(self).reviews_view().dom(),
            forall|k: Seq<char>| #[trigger] final(self).reviews_view().contains_key(k) && k != review_id.0@
                ==> final(self).reviews_view()[k] == old(self).reviews_view()[k],
            !old(self).reviews_view().contains_key(review_id.0@) ==> {
                &&& r matches Err(CollaborationError::SessionNotFound(m)) && m@ == review_id.0@
                &&& final(self).reviews_view() == old(self).reviews_view()
            },
            old(self).reviews_view().contains_key(review_id.0@) ==> (r matches Ok(f) && {
                let v = old(self).reviews_view()[review_id.0@];
                let w = final(self).reviews_view()[review_id.0@];
                &&& is_hyphenated_uuid(f.id@)
                &&& f.reviewer == reviewer && f.content == content && f.inline_comments@.len() == 0
                &&& w.feedback@.len() == v.feedback@.len() + 1
                &&& w.feedback@.subrange(0, v.feedback@.len() as int) == v.feedback@
                &&& w.feedback@.last().id == f.id && w.feedback@.last().content == content
                &&& w.status == v.status && w.reviewers == v.reviewers && w.change_requests == v.change_requests
            }),
    {
        let i = match self.reviews.find(review_id.0.as_str()) {
            Some(i) => i,
            None => return Err(CollaborationError::SessionNotFound(review_id.0.clone())),
        };
        let ghost before = self.reviews;
        proof { self.reviews.lemma_index_of(i as int); }
        let id = new_uuid();
        let now = now_millis();
        let stored = Feedback {
            id: id.clone(), reviewer: reviewer.duplicate(), content: content.clone(),
            created_at: now, updated_at: now, inline_comments: Vec::new(),
        };
        let returned = Feedback { id, reviewer, content, created_at: now, updated_at: now, inline_comments: Vec::new() };
        let v = self.reviews.value_at_mut(i);
        let ghost old_feedback = v.feedback@;
        v.feedback.push(stored);
        assert(v.feedback@.subrange(0, old_feedback.len() as int) =~= old_feedback);
        v.updated_at = now;
        proof { StrMap::lemma_update_value(before, self.reviews, i as int, self.reviews.entries()[i as int].1); }
        Ok(returned)
    }

    /// Add an inline comment to the first feedback with the given id. An unknown
    /// review or feedback is refused with its id.
    #[verifier::rlimit(40)]
    pub fn add_inline_comment(&mut self, review_id: &ReviewId, feedback_id: &str, range: Range, content: String)
        -> (r: Result<InlineComment, CollaborationError>)
        requires old(self).wf(),
        ensures
            final(self).wf(),
            final(self).doc_index() == old(self).doc_index(),
            final(self).user_index() == old(self).user_index(),
            final(self).reviews_view().dom() == old(self).reviews_view().dom(),
            forall|k: Seq<char>| #[trigger] final(self).reviews_view().contains_key(k) && k != review_id.0@
                ==> final(self).reviews_view()[k] == old(self).reviews_view()[k],
            !old(self).reviews_view().contains_key(review_id.0@) ==> {
                &&& r matches Err(CollaborationError::SessionNotFound(m)) && m@ == review_id.0@
                &&& final(self).reviews_view() == old(self).reviews_view()
            },
            old(self).reviews_view().contains_key(review_id.0@) ==> {
                let v = old(self).reviews_view()[review_id.0@];
                let w = final(self).reviews_view()[review_id.0@];
                let hit = exists|x: int| 0 <= x < v.feedback@.len() && (#[trigger] v.feedback@[x]).id@ == feedback_id@;
                &&& !hit ==> (r matches Err(CollaborationError::SessionNotFound(m)) && m@ == feedback_id@)
                &&& !hit ==> final(self).reviews_view() == old(self).reviews_view()
                &&& hit ==> (r matches Ok(c) && {
                    let x = choose|x: int| 0 <= x < v.feedback@.len() && (#[trigger] v.feedback@[x]).id@ == feedback_id@
                        && forall|y: int| 0 <= y < x ==> v.feedback@[y].id@ != feedback_id@;
                    &&& is_hyphenated_uuid(c.id@)
                    &&& c.range == range && c.content == content && !c.resolved
                    &&& w.feedback@.len() == v.feedback@.len()
                    &&& forall|y: int| 0 <= y < v.feedback@.len() && y != x ==> #[trigger] w.feedback@[y] == v.feedback@[y]
                    &&& w.feedback@[x].inline_comments@.len() == v.feedback@[x].inline_comments@.len() + 1
                    &&& w.feedback@[x].inline_comments@.last().id == c.id
                    &&& w.feedback@[x].id == v.feedback@[x].id
                })
            },
    {
        let i = match self.reviews.find(review_id.0.as_str()) {
            Some(i) => i,
            None => return Err(CollaborationError::SessionNotFound(review_id.0.clone())),
        };
        let ghost before = self.reviews;
        proof { self.reviews.lemma_index_of(i as int); }
        let now = now_millis();
        let v = self.reviews.value_at_mut(i);
        let ghost old_feedback = v.feedback@;
        let mut j: usize = 0;
        let mut pos: Option<usize> = None;
        while j < v.feedback.len()
            invariant
                j <= v.feedback@.len(),
                v.feedback@ == old_feedback,
                pos is None ==> forall|y: int| 0 <= y < j ==> old_feedback[y].id@ != feedback_id@,
                pos matches Some(h) ==> h < old_feedback.len() && old_feedback[h as int].id@ == feedback_id@
                    && forall|y: int| 0 <= y < h ==> old_feedback[y].id@ != feedback_id@,
            decreases v.feedback.len() - j,
        {
            if pos.is_none() && str_eq(v.feedback[j].id.as_str(), feedback_id) {
                pos = Some(j);
            }
            j = j + 1;
        }
        let j = match pos {
            Some(h) => h,
            None => {
                proof { StrMap::lemma_update_value(before, self.reviews, i as int, self.reviews.entries()[i as int].1); }
                return Err(CollaborationError::SessionNotFound(crate::text::owned(feedback_id)));
            },
        };
        let id = new_uuid();
        let stored = InlineComment { id: id.clone(), range, content: content.clone(), created_at: now, resolved: false };
        let returned = InlineComment { id, range, content, created_at: now, resolved: false };
        let mut f = v.feedback.remove(j);
        f.inline_comments.push(stored);
        f.updated_at = now;
        v.feedback.insert(j, f);
        v.updated_at = now;
        proof {
            let x = choose|x: int| 0 <= x < old_feedback.len() && (#[trigger] old_feedback[x]).id@ == feedback_id@
                && forall|y: int| 0 <= y < x ==> old_feedback[y].id@ != feedback_id@;
            assert(x == j) by {
                if x > j { assert(old_feedback[j as int].id@ == feedback_id@); }
            }
            StrMap::lemma_update_value(before, self.reviews, i as int, self.reviews.entries()[i as int].1);
        }
        Ok(returned)
    }

    /// A review by id.
    pub fn get_review(&self, review_id: &ReviewId) -> (r: Option<&Review>)
        requires self.wf(),
        ensures
            match r {
                Some(v) => self.reviews_view().contains_key(review_id.0@) && *v == self.reviews_view()[review_id.0@],
                None => !self.reviews_view().contains_key(review_id.0@),
            },
    {
        self.reviews.get(review_id.0.as_str())
    }

    fn collect(&self, ids: Option<&Vec<ReviewId>>, pending_only: bool) -> (r: Vec<&Review>)
        requires self.wf(),
        ensures
            ({
                let all = match ids { Some(v) => v@.map_values(|x: ReviewId| x.0@), None => Seq::empty() };
                let live = stored_reviews(self.reviews_view(), all, pending_only);
                &&& r@.len() == live.len()
                &&& forall|i: int| 0 <= i < r@.len() ==> *#[trigger] r@[i] == self.reviews_view()[live[i]]
            }),
    {
        let mut r: Vec<&Review> = Vec::new();
        match ids {
            Some(ids) => {
                let ghost all = ids@.map_values(|x: ReviewId| x.0@);
                let mut i: usize = 0;
                while i < ids.len()
                    invariant
                        self.wf(),
                        i <= ids@.len(),
                        all == ids@.map_values(|x: ReviewId| x.0@),
                        r@.len() == stored_reviews(self.reviews_view(), all.subrange(0, i as int), pending_only).len(),
                        forall|x: int| 0 <= x < r@.len() ==> *#[trigger] r@[x]
                            == self.reviews_view()[stored_reviews(self.reviews_view(), all.subrange(0, i as int), pending_only)[x]],
                    decreases ids.len() - i,
                {
                    proof {
                        assert(all.subrange(0, i + 1).drop_last() =~= all.subrange(0, i as int));
                        reveal(Seq::filter);
                    }
                    match self.reviews.get(ids[i].0.as_str()) {
                        Some(v) => {
                            if !pending_only || v.status == ReviewStatus::Pending || v.status == ReviewStatus::InProgress {
                                r.push(v);
                            }
                        },
                        None => {},
                    }
                    i = i + 1;
                }
                assert(all.subrange(0, ids@.len() as int) =~= all);
            },
            None => {
                assert(stored_reviews(self.reviews_view(), Seq::empty(), pending_only) =~= Seq::<Seq<char>>::empty()) by {
                    reveal(Seq::filter);
                }
            },
        }
        r
    }

    /// The stored reviews of a document, in the order of its index.
    pub fn get_document_reviews(&self, document_id: &DocumentId) -> (r: Vec<&Review>)
        requires self.wf(),
        ensures
            ({
                let live = stored_reviews(self.reviews_view(), ids_at(self.doc_index(), document_id.0@), false);
                &&& r@.len() == live.len()
                &&& forall|i: int| 0 <= i < r@.len() ==> *#[trigger] r@[i] == self.reviews_view()[live[i]]
            }),
    {
        self.collect(self.document_reviews.get(document_id.0.as_str()), false)
    }

    /// The stored reviews a user takes part in, in the order of the user's index.
    pub fn get_user_reviews(&self, user_id: &UserId) -> (r: Vec<&Review>)
        requires self.wf(),
        ensures
            ({
                let live = stored_reviews(self.reviews_view(), ids_at(self.user_index(), user_id.0@), false);
                &&& r@.len() == live.len()
                &&& forall|i: int| 0 <= i < r@.len() ==> *#[trigger] r@[i] == self.reviews_view()[live[i]]
            }),
    {
        self.collect(self.user_reviews.get(user_id.0.as_str()), false)
    }

    /// The stored reviews a user takes part in that are pending or in progress.
    pub fn get_pending_reviews(&self, user_id: &UserId) -> (r: Vec<&Review>)
        requires self.wf(),
        ensures
            ({
                let live = stored_reviews(self.reviews_view(), ids_at(self.user_index(), user_id.0@), true);
                &&& r@.len() == live.len()
                &&& forall|i: int| 0 <= i < r@.len() ==> *#[trigger] r@[i] == self.reviews_view()[live[i]]
                &&& forall|i: int| 0 <= i < r@.len() ==> is_pending((*#[trigger] r@[i]).status)
            }),
    {
        let r = self.collect(self.user_reviews.get(user_id.0.as_str()), true);
        proof {
            let live = stored_reviews(self.reviews_view(), ids_at(self.user_index(), user_id.0@), true);
            assert forall|i: int| 0 <= i < r@.len() implies is_pending((*#[trigger] r@[i]).status) by {
                assert(live.contains(live[i]));
                broadcast use vstd::seq_lib::group_filter_ensures;
            }
        }
        r
    }

    /// Delete a review and drop it from the index of its document, its author
    /// and each of its assigned users.
    pub fn delete_review(&mut self, review_id: &ReviewId) -> (r: Result<(), CollaborationError>)
        requires old(self).wf(),
        ensures
            final(self).wf(),
            r is Ok,
            final(self).reviews_view() == old(self).reviews_view().remove(review_id.0@),
            !old(self).reviews_view().contains_key(review_id.0@) ==> {
                &&& final(self).doc_index() == old(self).doc_index()
                &&& final(self).user_index() == old(self).user_index()
            },
            old(self).reviews_view().contains_key(review_id.0@) ==> {
                let v = old(self).reviews_view()[review_id.0@];
                let users = seq![v.author.0@] + user_ids(v.reviewers@);
                &&& ids_at(final(self).doc_index(), v.document_id.0@)
                    == without(ids_at(old(self).doc_index(), v.document_id.0@), review_id.0@)
                &&& forall|k: Seq<char>| #[trigger] final(self).doc_index().contains_key(k) && k != v.document_id.0@
                    ==> final(self).doc_index()[k] == old(self).doc_index()[k]
                &&& forall|u: Seq<char>| users.contains(u) ==> #[trigger] ids_at(final(self).user_index(), u)
                    == without(ids_at(old(self).user_index(), u), review_id.0@)
                &&& forall|u: Seq<char>| !users.contains(u) ==> #[trigger] ids_at(final(self).user_index(), u)
                    == ids_at(old(self).user_index(), u)
            },
    {
        match self.reviews.remove(review_id.0.as_str()) {
            Some(v) => {
                Self::drop_from(&mut self.document_reviews, v.document_id.0.as_str(), review_id);
                let ghost start = self.user_reviews@;
                Self::drop_from(&mut self.user_reviews, v.author.0.as_str(), review_id);
                let ghost users = user_ids(v.reviewers@);
                let ghost reviews_now = self.reviews;
                let ghost docs_now = self.document_reviews;
                let mut i: usize = 0;
                while i < v.reviewers.len()
                    invariant
                        self.user_reviews.wf(),
                        self.reviews == reviews_now,
                        self.document_reviews == docs_now,
                        i <= v.reviewers@.len(),
                        users == user_ids(v.reviewers@),
                        forall|u: Seq<char>| (u == v.author.0@ || users.subrange(0, i as int).contains(u))
                            ==> #[trigger] ids_at(self.user_reviews@, u) == without(ids_at(start, u), review_id.0@),
                        forall|u: Seq<char>| !(u == v.author.0@ || users.subrange(0, i as int).contains(u))
                            ==> #[trigger] ids_at(self.user_reviews@, u) == ids_at(start, u),
                    decreases v.reviewers.len() - i,
                {
                    let ghost before = self.user_reviews@;
                    let key = v.reviewers[i].0.as_str();
                    Self::drop_from(&mut self.user_reviews, key, review_id);
                    proof {
                        let pre = users.subrange(0, i as int);
                        let post = users.subrange(0, i + 1);
                        assert(post[i as int] == key@);
                        assert forall|u: Seq<char>| (u == v.author.0@ || post.contains(u))
                            implies #[trigger] ids_at(self.user_reviews@, u) == without(ids_at(start, u), review_id.0@) by {
                            if u == key@ {
                                assert(ids_at(self.user_reviews@, u) == without(ids_at(before, u), review_id.0@));
                                if u == v.author.0@ || pre.contains(u) {
                                    assert(ids_at(before, u) == without(ids_at(start, u), review_id.0@));
                                    lemma_filter_twice(ids_at(start, u), review_id.0@);
                                    assert(ids_at(self.user_reviews@, u) == without(ids_at(start, u), review_id.0@));
                                } else {
                                    assert(ids_at(before, u) == ids_at(start, u));
                                    assert(ids_at(self.user_reviews@, u) == without(ids_at(start, u), review_id.0@));
                                }
                            } else {
                                if post.contains(u) && u != v.author.0@ {
                                    let j = choose|j: int| 0 <= j < post.len() && #[trigger] post[j] == u;
                                    assert(j != i);
                                    assert(pre[j] == u);
                                    assert(pre.contains(u));
                                }
                                assert(ids_at(before, u) == without(ids_at(start, u), review_id.0@));
                                assert(self.user_reviews@.contains_key(u) == before.contains_key(u));
                                if self.user_reviews@.contains_key(u) {
                                    assert(self.user_reviews@[u] == before[u]);
                                }
                                assert(ids_at(self.user_reviews@, u) == ids_at(before, u));
                            }
                        }
                        assert forall|u: Seq<char>| !(u == v.author.0@ || post.contains(u))
                            implies #[trigger] ids_at(self.user_reviews@, u) == ids_at(start, u) by {
                            if pre.contains(u) {
                                let j = choose|j: int| 0 <= j < pre.len() && #[trigger] pre[j] == u;
                                assert(post[j] == u);
                            }
                            assert(ids_at(before, u) == ids_at(start, u));
                            if self.user_reviews@.contains_key(u) {
                                assert(self.user_reviews@[u] == before[u]);
                            }
                        }
                    }
                    i = i + 1;
                }
                proof {
                    assert(users.subrange(0, users.len() as int) =~= users);
                    let all = seq![v.author.0@] + users;
                    assert forall|u: Seq<char>| all.contains(u) <==> (u == v.author.0@ || users.contains(u)) by {
                        if all.contains(u) {
                            let j = choose|j: int| 0 <= j < all.len() && #[trigger] all[j] == u;
                            if j > 0 { assert(users[j - 1] == u); }
                        }
                        if users.contains(u) {
                            let j = choose|j: int| 0 <= j < users.len() && #[trigger] users[j] == u;
                            assert(all[j + 1] == u);
                        }
                        if u == v.author.0@ { assert(all[0] == u); }
                    }
                }
            },
            None => {},
        }
        Ok(())
    }
}

} // verus!
