//! Discussions and their comments, each family a typed facade over a
//! revision store.

use vstd::prelude::*;

use crate::error::Error;
use crate::store::RevisionStore;
use crate::user::{clone_opt_string, lemma_filter_push, UserId};

verus! {

/// The identity of a discussion.
pub type DiscussionId = u32;

/// The payload of one discussion revision.
pub struct DiscussionData {
    pub markdown: Option<String>,
}

/// The revision table of discussions.
pub type DiscussionStore = RevisionStore<DiscussionData>;

/// A discussion thread with its optional opening text.
#[derive(Debug)]
pub struct Discussion {
    pub id: DiscussionId,
    pub markdown: Option<String>,
}

impl Clone for Discussion {
    fn clone(&self) -> (r: Self)
        ensures
            r == *self,
    {
        Discussion { id: self.id, markdown: clone_opt_string(&self.markdown) }
    }
}

/// The discussion a current row materializes to.
pub open spec fn discussion_at(store: DiscussionStore, i: int) -> Discussion {
    Discussion { id: store.rows@[i].identity, markdown: store.rows@[i].payload.markdown }
}

impl Discussion {
    /// The current discussion of identity `id`; `EntryNotFound` exactly
    /// when no current row carries `id`.
    pub fn get(store: &DiscussionStore, id: DiscussionId) -> (r: Result<Discussion, Error>)
        ensures
            match r {
                Ok(d) => store.has_current(id) && d == discussion_at(*store, store.current_index(id)),
                Err(e) => e == Error::EntryNotFound && !store.has_current(id),
            },
    {
        match store.current_index_for(id) {
            Some(i) => {
                let row = store.row(i);
                proof {
                    store.lemma_current_index(id, i as int);
                }
                Ok(Discussion { id: row.identity, markdown: clone_opt_string(&row.payload.markdown) })
            },
            None => Err(Error::EntryNotFound),
        }
    }

    /// Opens an empty discussion under a fresh identity and returns it.
    pub fn create(store: &mut DiscussionStore, marker: u64) -> (r: Result<DiscussionId, Error>)
        ensures
            match r {
                Ok(id) => final(store).created_fresh(
                    *old(store),
                    marker,
                    DiscussionData { markdown: Option::None },
                ) && id == final(store).rows@.last().identity,
                Err(e) => e == Error::StorageFailure && DiscussionStore::max_identity(
                    old(store).rows@,
                ) >= u32::MAX && final(store).rows@ == old(store).rows@,
            },
    {
        store.insert_revision(None, marker, false, DiscussionData { markdown: None })
    }
}

/// The identity of a comment.
pub type CommentId = u32;

/// The payload of one comment revision.
pub struct CommentData {
    pub discussion: DiscussionId,
    pub author: UserId,
    pub markdown: String,
    pub created: u64,
}

/// The revision table of comments.
pub type CommentStore = RevisionStore<CommentData>;

/// A comment in a discussion.
#[derive(Debug)]
pub struct Comment {
    pub id: CommentId,
    pub discussion: DiscussionId,
    pub author: UserId,
    pub markdown: String,
    pub created: u64,
}

impl Clone for Comment {
    fn clone(&self) -> (r: Self)
        ensures
            r == *self,
    {
        Comment {
            id: self.id,
            discussion: self.discussion,
            author: self.author,
            markdown: self.markdown.clone(),
            created: self.created,
        }
    }
}

/// The comment a current row materializes to.
pub open spec fn comment_at(store: CommentStore, i: int) -> Comment {
    Comment {
        id: store.rows@[i].identity,
        discussion: store.rows@[i].payload.discussion,
        author: store.rows@[i].payload.author,
        markdown: store.rows@[i].payload.markdown,
        created: store.rows@[i].payload.created,
    }
}

/// Every comment in the current view, in insertion order.
pub open spec fn comments_view(store: CommentStore) -> Seq<Comment> {
    store.current_positions().map_values(|u: usize| comment_at(store, u as int))
}

/// The comments of one discussion.
pub struct Comments(pub Vec<Comment>);

impl Comments {
    /// The current comments of discussion `discussion`, in insertion order.
    pub fn get(store: &CommentStore, discussion: DiscussionId) -> (r: Result<Comments, Error>)
        ensures
            r matches Ok(c) && c.0@ == comments_view(*store).filter(
                |c: Comment| c.discussion == discussion,
            ),
    {
        let positions = store.current_indices();
        let ghost view = comments_view(*store);
        let mut out: Vec<Comment> = Vec::new();
        let mut k: usize = 0;
        proof {
            assert(view.subrange(0, 0).filter(|c: Comment| c.discussion == discussion) =~= Seq::<
                Comment,
            >::empty()) by {
                reveal(Seq::filter);
            }
        }
        while k < positions.len()
            invariant
                k <= positions@.len(),
                positions@ == store.current_positions(),
                forall|m: int| 0 <= m < positions@.len() ==> store.current_at(positions@[m] as int),
                view == comments_view(*store),
                view.len() == positions@.len(),
                out@ == view.subrange(0, k as int).filter(
                    |c: Comment| c.discussion == discussion,
                ),
            decreases positions@.len() - k,
        {
            let i = positions[k];
            let row = store.row(i);
            proof {
                assert(view[k as int] == comment_at(*store, positions@[k as int] as int));
                lemma_filter_push(
                    view.subrange(0, k as int),
                    |c: Comment| c.discussion == discussion,
                    view[k as int],
                );
                assert(view.subrange(0, k as int).push(view[k as int]) =~= view.subrange(
                    0,
                    k + 1,
                ));
            }
            if row.payload.discussion == discussion {
                out.push(Comment {
                    id: row.identity,
                    discussion: row.payload.discussion,
                    author: row.payload.author,
                    markdown: row.payload.markdown.clone(),
                    created: row.payload.created,
                });
            }
            k = k + 1;
        }
        proof {
            assert(view.subrange(0, view.len() as int) =~= view);
        }
        Ok(Comments(out))
    }
}

/// A discussion together with its comments.
#[derive(Debug)]
pub struct DiscussionWithComments {
    pub discussion: Discussion,
    pub comments: Vec<Comment>,
}

impl DiscussionWithComments {
    /// The current discussion `discussion` with its current comments;
    /// `EntryNotFound` exactly when the discussion is not live.
    pub fn get(
        discussions: &DiscussionStore,
        comments: &CommentStore,
        discussion: DiscussionId,
    ) -> (r: Result<DiscussionWithComments, Error>)
        ensures
            match r {
                Ok(d) => ({
                    &&& discussions.has_current(discussion)
                    &&& d.discussion == discussion_at(
                        *discussions,
                        discussions.current_index(discussion),
                    )
                    &&& d.comments@ == comments_view(*comments).filter(
                        (|c: Comment| c.discussion == discussion),
                    )
                }),
                Err(e) => e == Error::EntryNotFound && !discussions.has_current(discussion),
            },
    {
        let d = Discussion::get(discussions, discussion)?;
        match Comments::get(comments, discussion) {
            Ok(c) => Ok(DiscussionWithComments { discussion: d, comments: c.0 }),
            Err(e) => Err(e),
        }
    }
}

} // verus!
