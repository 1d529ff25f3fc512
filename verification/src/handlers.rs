//! The use cases: what a caller can ask of the two repositories together, and
//! in which words a refusal is put.

use crate::entities::{
    Author, Content, ContentId, ContentView, Date, Posted, User, UserId, UserView,
};
use crate::mutation::{ContentMutation, UserMutation};
use crate::query::{ContentQuery, UserQuery};
use crate::repositories::{
    bookmark_deleted, bookmark_inserted, bookmarks_of, content_updated, deleted, held, inserted,
    lookup, matching_contents, matching_users, related_of, relation_deleted, relation_inserted,
    user_updated, ContentRelation, ContentRepository, RepositoryError, UserRepository,
};
use std::collections::HashSet;
use uuid::Uuid;
use vstd::prelude::*;

verus! {

/// What a user can do with a content item, once or not at all.
#[derive(Clone, Copy, Debug, PartialEq, Eq, Structural)]
pub enum Relation {
    Bookmark,
    Like,
    Pin,
}

/// Why a use case gave no result.
#[derive(Clone, Debug, PartialEq, Eq)]
pub enum HandlerError {
    /// The user is registered already.
    AlreadyRegistered,
    /// The user who posts is not registered.
    NotRegistered,
    /// The relation holds already.
    AlreadyDone(Relation),
    /// The relation does not hold, so it cannot be taken back.
    NotDone(Relation),
    /// The identifier made for a new content item is in use.
    DuplicateContentId,
    /// The repository of users gave no result.
    User(RepositoryError),
    /// The repository of content items gave no result.
    Content(RepositoryError),
}

/// Whether a use case gave no result because a backend itself failed. Of such
/// an outcome, and of what the repositories hold after it, nothing is said.
pub open spec fn handler_failed<R>(outcome: Result<R, HandlerError>) -> bool {
    match outcome {
        Err(HandlerError::User(RepositoryError::Internal(_))) => true,
        Err(HandlerError::Content(RepositoryError::Internal(_))) => true,
        _ => false,
    }
}

/// What a toggle of a relation comes to: fine if the repository says that
/// something changed; else a refusal that names the relation.
pub open spec fn toggle_verdict(relation: Relation, undo: bool, changed: bool) -> Result<
    (),
    HandlerError,
> {
    if changed {
        Ok(())
    } else if undo {
        Err(HandlerError::NotDone(relation))
    } else {
        Err(HandlerError::AlreadyDone(relation))
    }
}

/// Judges the answer of a relation toggle.
pub fn judge_toggle(relation: Relation, undo: bool, changed: bool) -> (r: Result<(), HandlerError>)
    ensures
        r == toggle_verdict(relation, undo, changed),
{
    if changed {
        Ok(())
    } else if undo {
        Err(HandlerError::NotDone(relation))
    } else {
        Err(HandlerError::AlreadyDone(relation))
    }
}

impl HandlerError {
    /// What the error says, as a text.
    pub open spec fn message_text(&self) -> Seq<char> {
        match *self {
            HandlerError::AlreadyRegistered => "already registered."@,
            HandlerError::NotRegistered => "cannot find user. not registered?"@,
            HandlerError::AlreadyDone(Relation::Bookmark) => "already bookmarked."@,
            HandlerError::AlreadyDone(Relation::Like) => "already liked."@,
            HandlerError::AlreadyDone(Relation::Pin) => "already pinned."@,
            HandlerError::NotDone(Relation::Bookmark) => "didn't bookmarked."@,
            HandlerError::NotDone(Relation::Like) => "didn't liked."@,
            HandlerError::NotDone(Relation::Pin) => "didn't pinned."@,
            HandlerError::DuplicateContentId => "content_id duplicated!"@,
            HandlerError::User(e) => e.message_text(),
            HandlerError::Content(e) => e.message_text(),
        }
    }

    /// Writes the error out for a reader.
    pub fn message(&self) -> (text: String)
        ensures
            text@ == self.message_text(),
    {
        match self {
            HandlerError::AlreadyRegistered => String::from_str("already registered."),
            HandlerError::NotRegistered => String::from_str("cannot find user. not registered?"),
            HandlerError::AlreadyDone(Relation::Bookmark) => String::from_str(
                "already bookmarked.",
            ),
            HandlerError::AlreadyDone(Relation::Like) => String::from_str("already liked."),
            HandlerError::AlreadyDone(Relation::Pin) => String::from_str("already pinned."),
            HandlerError::NotDone(Relation::Bookmark) => String::from_str("didn't bookmarked."),
            HandlerError::NotDone(Relation::Like) => String::from_str("didn't liked."),
            HandlerError::NotDone(Relation::Pin) => String::from_str("didn't pinned."),
            HandlerError::DuplicateContentId => String::from_str("content_id duplicated!"),
            HandlerError::User(e) => e.message(),
            HandlerError::Content(e) => e.message(),
        }
    }
}

/// A user as it is when it registers: no rights, nothing posted, nothing
/// bookmarked.
pub open spec fn fresh_user(id: UserId) -> UserView {
    UserView { id, admin: false, sub_admin: false, posted: Set::empty(), bookmark: Set::empty() }
}

/// A content item as it is when it is posted: nobody likes it and nobody has
/// pinned it, and it has not been edited.
pub open spec fn fresh_content(
    id: ContentId,
    content: Seq<char>,
    posted: Posted,
    author: Author,
    created: Date,
) -> ContentView {
    ContentView {
        id,
        author: author@,
        posted: posted@,
        content,
        liked: Set::empty(),
        pinned: Set::empty(),
        created,
        edited: Seq::empty(),
    }
}

/// Makes the user that registers under `id`.
pub fn new_user(id: UserId) -> (user: User)
    ensures
        user@ == fresh_user(id),
{
    User { id, admin: false, sub_admin: false, posted: HashSet::new(), bookmark: HashSet::new() }
}

/// Makes the content item that is posted under `id`.
pub fn new_content(id: ContentId, content: String, posted: Posted, author: Author, created: Date) -> (item:
    Content)
    ensures
        item@ == fresh_content(id, content@, posted, author, created),
{
    Content {
        id,
        author,
        posted,
        content,
        liked: HashSet::new(),
        pinned: HashSet::new(),
        created,
        edited: Vec::new(),
    }
}

/// The bits that every identifier made at random carries: those of the
/// version and of the variant.
pub const RANDOM_ID_MASK: u128 = 0x0000_0000_0000_f000_c000_0000_0000_0000;

/// What the bits under `RANDOM_ID_MASK` hold: version 4, variant 1.
pub const RANDOM_ID_BITS: u128 = 0x0000_0000_0000_4000_8000_0000_0000_0000;

/// Makes an identifier for a new content item, at random.
///
/// Wraps `Uuid::new_v4`, taking the identifier as a number (`Uuid::as_u128`).
/// The contract says only what holds of every version 4 identifier. The call
/// draws on the operating system's random numbers, and fails with it.
#[verifier::external_body]
pub(crate) fn fresh_content_id() -> (id: ContentId)
    ensures
        id & RANDOM_ID_MASK == RANDOM_ID_BITS,
{
    Uuid::new_v4().as_u128()
}

/// The use cases, on a repository of users and one of content items.
pub struct Handler<U: UserRepository, C: ContentRepository> {
    pub user_repository: U,
    pub content_repository: C,
}

/// An outcome that holds a record, with the record as a mathematical value.
pub open spec fn outcome_view<T: View>(outcome: Result<T, HandlerError>) -> Result<
    T::V,
    HandlerError,
> {
    match outcome {
        Ok(item) => Ok(item@),
        Err(e) => Err(e),
    }
}

/// An answer of the repository of users as an outcome of a use case.
pub open spec fn from_users<R>(answer: Result<R, RepositoryError>) -> Result<R, HandlerError> {
    match answer {
        Ok(r) => Ok(r),
        Err(e) => Err(HandlerError::User(e)),
    }
}

/// An answer of the repository of content items as an outcome of a use case.
pub open spec fn from_contents<R>(answer: Result<R, RepositoryError>) -> Result<R, HandlerError> {
    match answer {
        Ok(r) => Ok(r),
        Err(e) => Err(HandlerError::Content(e)),
    }
}

/// What registering answers, from what inserting the fresh user answered.
pub open spec fn registered(id: UserId, answer: Result<bool, RepositoryError>) -> Result<
    UserView,
    HandlerError,
> {
    match answer {
        Ok(true) => Ok(fresh_user(id)),
        Ok(false) => Err(HandlerError::AlreadyRegistered),
        Err(e) => Err(HandlerError::User(e)),
    }
}

/// Judges the answer that the repository of users gave to the insertion of
/// the fresh user of `user_id`: on `true` the user is registered and is the
/// outcome, on `false` it was registered already.
pub fn judge_registration(user_id: UserId, answer: Result<bool, RepositoryError>) -> (r: Result<
    User,
    HandlerError,
>)
    ensures
        outcome_view(r) == registered(user_id, answer),
{
    match answer {
        Ok(true) => Ok(new_user(user_id)),
        Ok(false) => Err(HandlerError::AlreadyRegistered),
        Err(e) => Err(HandlerError::User(e)),
    }
}

/// Whether somebody may post, from what the repository of users answered when
/// asked whether the poster is held: only a registered user may.
pub open spec fn poster_verdict(answer: Result<bool, RepositoryError>) -> Result<(), HandlerError> {
    match answer {
        Ok(true) => Ok(()),
        Ok(false) => Err(HandlerError::NotRegistered),
        Err(e) => Err(HandlerError::User(e)),
    }
}

/// Judges the answer that the repository of users gave when asked whether
/// the poster is held.
pub fn judge_poster(answer: Result<bool, RepositoryError>) -> (r: Result<(), HandlerError>)
    ensures
        r == poster_verdict(answer),
{
    match answer {
        Ok(true) => Ok(()),
        Ok(false) => Err(HandlerError::NotRegistered),
        Err(e) => Err(HandlerError::User(e)),
    }
}

/// What posting `item` comes to, from what the repository of content items
/// answered to its insertion: on `true` the item is posted and is the
/// outcome, on `false` its identifier was in use.
pub open spec fn posting_verdict(item: ContentView, answer: Result<bool, RepositoryError>) -> Result<
    ContentView,
    HandlerError,
> {
    match answer {
        Ok(true) => Ok(item),
        Ok(false) => Err(HandlerError::DuplicateContentId),
        Err(e) => Err(HandlerError::Content(e)),
    }
}

/// Judges the answer that the repository of content items gave to the
/// insertion of `item`.
pub fn judge_posting(item: Content, answer: Result<bool, RepositoryError>) -> (r: Result<
    Content,
    HandlerError,
>)
    ensures
        outcome_view(r) == posting_verdict(item@, answer),
{
    match answer {
        Ok(true) => Ok(item),
        Ok(false) => Err(HandlerError::DuplicateContentId),
        Err(e) => Err(HandlerError::Content(e)),
    }
}

/// What a toggle of a content relation answers: a refusal if nothing changed,
/// else the content item as it is afterwards.
pub open spec fn content_toggled(
    relation: Relation,
    undo: bool,
    id: ContentId,
    toggled: (Seq<ContentView>, Result<bool, RepositoryError>),
) -> Result<ContentView, HandlerError> {
    match toggled.1 {
        Err(e) => Err(HandlerError::Content(e)),
        Ok(changed) => match toggle_verdict(relation, undo, changed) {
            Err(e) => Err(e),
            Ok(_) => from_contents(lookup::<Content>(toggled.0, id as int)),
        },
    }
}

/// What a toggle of a bookmark answers: a refusal if nothing changed, else the
/// user as it is afterwards, with the content item.
pub open spec fn bookmark_toggled(
    undo: bool,
    id: UserId,
    content_id: ContentId,
    toggled: (Seq<UserView>, Result<bool, RepositoryError>),
    contents: Seq<ContentView>,
) -> Result<(UserView, ContentView), HandlerError> {
    match toggled.1 {
        Err(e) => Err(HandlerError::User(e)),
        Ok(changed) => match toggle_verdict(Relation::Bookmark, undo, changed) {
            Err(e) => Err(e),
            Ok(_) => match lookup::<User>(toggled.0, id as int) {
                Err(e) => Err(HandlerError::User(e)),
                Ok(user) => match lookup::<Content>(contents, content_id as int) {
                    Err(e) => Err(HandlerError::Content(e)),
                    Ok(content) => Ok((user, content)),
                },
            },
        },
    }
}

/// What posting `item` answers, and which content items are held afterwards:
/// the user who posts has to be registered, and the identifier of `item` must
/// not be in use.
pub open spec fn posted_with(
    users: Seq<UserView>,
    contents: Seq<ContentView>,
    item: ContentView,
) -> (Seq<ContentView>, Result<ContentView, HandlerError>) {
    match poster_verdict(held::<User>(users, item.posted.id as int)) {
        Err(e) => (contents, Err(e)),
        Ok(_) => (
            inserted::<Content>(contents, item).0,
            posting_verdict(item, inserted::<Content>(contents, item).1),
        ),
    }
}

impl<U: UserRepository, C: ContentRepository> Handler<U, C> {
    /// Registers a user under `user_id`.
    pub fn register_user(&mut self, user_id: UserId) -> (r: Result<User, HandlerError>)
        ensures
            final(self).content_repository.contents() == old(self).content_repository.contents(),
            handler_failed(r) || {
                let expected = inserted::<User>(
                    old(self).user_repository.users(),
                    fresh_user(user_id),
                );
                &&& final(self).user_repository.users() == expected.0
                &&& outcome_view(r) == registered(user_id, expected.1)
            },
    {
        let answer = self.user_repository.insert(new_user(user_id));
        judge_registration(user_id, answer)
    }

    /// Gives the user registered under `user_id`.
    pub fn get_user(&self, user_id: UserId) -> (r: Result<User, HandlerError>)
        ensures
            handler_failed(r) || outcome_view(r) == from_users(
                lookup::<User>(self.user_repository.users(), user_id as int),
            ),
    {
        match self.user_repository.find(user_id) {
            Ok(user) => Ok(user),
            Err(e) => Err(HandlerError::User(e)),
        }
    }

    /// Gives the users that a query accepts.
    pub fn get_users(&self, query: UserQuery) -> (r: Result<Vec<User>, HandlerError>)
        ensures
            handler_failed(r) || (r is Ok && crate::repositories::views(r->Ok_0@)
                == matching_users(self.user_repository.users(), query)),
    {
        match self.user_repository.finds(query) {
            Ok(users) => Ok(users),
            Err(e) => Err(HandlerError::User(e)),
        }
    }

    /// Changes the user registered under `user_id`.
    pub fn edit_user(&mut self, user_id: UserId, mutation: UserMutation) -> (r: Result<
        User,
        HandlerError,
    >)
        ensures
            final(self).content_repository.contents() == old(self).content_repository.contents(),
            handler_failed(r) || {
                let expected = user_updated(old(self).user_repository.users(), user_id, mutation);
                &&& final(self).user_repository.users() == expected.0
                &&& outcome_view(r) == from_users(expected.1)
            },
    {
        match self.user_repository.update(user_id, mutation) {
            Ok(user) => Ok(user),
            Err(e) => Err(HandlerError::User(e)),
        }
    }

    /// Removes the user registered under `user_id`, and gives it as it was.
    pub fn unregister_user(&mut self, user_id: UserId) -> (r: Result<User, HandlerError>)
        ensures
            final(self).content_repository.contents() == old(self).content_repository.contents(),
            handler_failed(r) || {
                let expected = deleted::<User>(old(self).user_repository.users(), user_id as int);
                &&& final(self).user_repository.users() == expected.0
                &&& outcome_view(r) == from_users(expected.1)
            },
    {
        match self.user_repository.delete(user_id) {
            Ok(user) => Ok(user),
            Err(e) => Err(HandlerError::User(e)),
        }
    }

    /// Gives the bookmarks of a user.
    pub fn get_user_bookmark(&self, user_id: UserId) -> (r: Result<HashSet<ContentId>, HandlerError>)
        ensures
            handler_failed(r) || match bookmarks_of(self.user_repository.users(), user_id) {
                Ok(ids) => r is Ok && r->Ok_0@ == ids,
                Err(e) => r == Err::<HashSet<ContentId>, HandlerError>(HandlerError::User(e)),
            },
    {
        match self.user_repository.get_bookmark(user_id) {
            Ok(ids) => Ok(ids),
            Err(e) => Err(HandlerError::User(e)),
        }
    }

    /// Bookmarks a content item for a user, or with `undo` takes the bookmark
    /// back, and gives both as they are afterwards.
    pub fn user_bookmark_op(&mut self, user_id: UserId, content_id: ContentId, undo: bool) -> (r:
        Result<(User, Content), HandlerError>)
        ensures
            final(self).content_repository.contents() == old(self).content_repository.contents(),
            handler_failed(r) || {
                let toggled = if undo {
                    bookmark_deleted(old(self).user_repository.users(), user_id, content_id)
                } else {
                    bookmark_inserted(old(self).user_repository.users(), user_id, content_id)
                };
                &&& final(self).user_repository.users() == toggled.0
                &&& match r {
                    Ok((user, content)) => Ok::<(UserView, ContentView), HandlerError>(
                        (user@, content@),
                    ),
                    Err(e) => Err::<(UserView, ContentView), HandlerError>(e),
                } == bookmark_toggled(
                    undo,
                    user_id,
                    content_id,
                    toggled,
                    old(self).content_repository.contents(),
                )
            },
    {
        let answer = if undo {
            self.user_repository.delete_bookmark(user_id, content_id)
        } else {
            self.user_repository.insert_bookmark(user_id, content_id)
        };
        let changed = match answer {
            Ok(changed) => changed,
            Err(e) => { return Err(HandlerError::User(e)); },
        };
        match judge_toggle(Relation::Bookmark, undo, changed) {
            Ok(_) => {},
            Err(e) => { return Err(e); },
        }
        let user = match self.user_repository.find(user_id) {
            Ok(user) => user,
            Err(e) => { return Err(HandlerError::User(e)); },
        };
        match self.content_repository.find(content_id) {
            Ok(content) => Ok((user, content)),
            Err(e) => Err(HandlerError::Content(e)),
        }
    }

    /// Posts a content item under the identifier `id`, if the user who posts
    /// is registered.
    pub fn content_post_with(
        &mut self,
        id: ContentId,
        content: String,
        posted: Posted,
        author: Author,
        created: Date,
    ) -> (r: Result<Content, HandlerError>)
        ensures
            final(self).user_repository.users() == old(self).user_repository.users(),
            handler_failed(r) || {
                let expected = posted_with(
                    old(self).user_repository.users(),
                    old(self).content_repository.contents(),
                    fresh_content(id, content@, posted, author, created),
                );
                &&& final(self).content_repository.contents() == expected.0
                &&& outcome_view(r) == expected.1
            },
    {
        let known = self.user_repository.is_exists(posted.id);
        match judge_poster(known) {
            Ok(_) => {},
            Err(e) => { return Err(e); },
        }
        let item = new_content(id, content, posted, author, created);
        let answer = self.content_repository.insert(item.clone());
        judge_posting(item, answer)
    }

    /// Posts a content item under an identifier made at random, if the user
    /// who posts is registered. The item is stored unless its identifier is in
    /// use.
    pub fn content_post(&mut self, content: String, posted: Posted, author: Author, created: Date) -> (r:
        Result<Content, HandlerError>)
        ensures
            final(self).user_repository.users() == old(self).user_repository.users(),
            handler_failed(r) || exists|id: ContentId|
                {
                    let expected = #[trigger] posted_with(
                        old(self).user_repository.users(),
                        old(self).content_repository.contents(),
                        fresh_content(id, content@, posted, author, created),
                    );
                    &&& id & RANDOM_ID_MASK == RANDOM_ID_BITS
                    &&& final(self).content_repository.contents() == expected.0
                    &&& outcome_view(r) == expected.1
                },
    {
        let id = fresh_content_id();
        self.content_post_with(id, content, posted, author, created)
    }

    /// Gives the content item with the identifier `content_id`.
    pub fn get_content(&self, content_id: ContentId) -> (r: Result<Content, HandlerError>)
        ensures
            handler_failed(r) || outcome_view(r) == from_contents(
                lookup::<Content>(self.content_repository.contents(), content_id as int),
            ),
    {
        match self.content_repository.find(content_id) {
            Ok(content) => Ok(content),
            Err(e) => Err(HandlerError::Content(e)),
        }
    }

    /// Gives the content items that a query accepts.
    pub fn get_contents(&self, query: ContentQuery) -> (r: Result<Vec<Content>, HandlerError>)
        ensures
            handler_failed(r) || (r is Ok && crate::repositories::views(r->Ok_0@)
                == matching_contents(self.content_repository.contents(), query)),
    {
        match self.content_repository.finds(query) {
            Ok(contents) => Ok(contents),
            Err(e) => Err(HandlerError::Content(e)),
        }
    }

    /// Changes the content item with the identifier `content_id`.
    pub fn edit_content(&mut self, content_id: ContentId, mutation: ContentMutation) -> (r: Result<
        Content,
        HandlerError,
    >)
        ensures
            final(self).user_repository.users() == old(self).user_repository.users(),
            handler_failed(r) || {
                let expected = content_updated(
                    old(self).content_repository.contents(),
                    content_id,
                    mutation,
                );
                &&& final(self).content_repository.contents() == expected.0
                &&& outcome_view(r) == from_contents(expected.1)
            },
    {
        match self.content_repository.update(content_id, mutation) {
            Ok(content) => Ok(content),
            Err(e) => Err(HandlerError::Content(e)),
        }
    }

    /// Gives the users who like a content item.
    pub fn get_content_like(&self, content_id: ContentId) -> (r: Result<HashSet<UserId>, HandlerError>)
        ensures
            handler_failed(r) || match related_of(
                self.content_repository.contents(),
                ContentRelation::Liked,
                content_id,
            ) {
                Ok(ids) => r is Ok && r->Ok_0@ == ids,
                Err(e) => r == Err::<HashSet<UserId>, HandlerError>(HandlerError::Content(e)),
            },
    {
        match self.content_repository.get_liked(content_id) {
            Ok(ids) => Ok(ids),
            Err(e) => Err(HandlerError::Content(e)),
        }
    }

    /// Records that a user likes a content item, or with `undo` takes the like
    /// back, and gives the item as it is afterwards.
    pub fn content_like_op(&mut self, content_id: ContentId, user_id: UserId, undo: bool) -> (r:
        Result<Content, HandlerError>)
        ensures
            final(self).user_repository.users() == old(self).user_repository.users(),
            handler_failed(r) || {
                let toggled = if undo {
                    relation_deleted(
                        old(self).content_repository.contents(),
                        ContentRelation::Liked,
                        content_id,
                        user_id,
                    )
                } else {
                    relation_inserted(
                        old(self).content_repository.contents(),
                        ContentRelation::Liked,
                        content_id,
                        user_id,
                    )
                };
                &&& final(self).content_repository.contents() == toggled.0
                &&& outcome_view(r) == content_toggled(Relation::Like, undo, content_id, toggled)
            },
    {
        let answer = if undo {
            self.content_repository.delete_liked(content_id, user_id)
        } else {
            self.content_repository.insert_liked(content_id, user_id)
        };
        let changed = match answer {
            Ok(changed) => changed,
            Err(e) => { return Err(HandlerError::Content(e)); },
        };
        match judge_toggle(Relation::Like, undo, changed) {
            Ok(_) => {},
            Err(e) => { return Err(e); },
        }
        match self.content_repository.find(content_id) {
            Ok(content) => Ok(content),
            Err(e) => Err(HandlerError::Content(e)),
        }
    }

    /// Gives the users who pinned a content item.
    pub fn get_content_pin(&self, content_id: ContentId) -> (r: Result<HashSet<UserId>, HandlerError>)
        ensures
            handler_failed(r) || match related_of(
                self.content_repository.contents(),
                ContentRelation::Pinned,
                content_id,
            ) {
                Ok(ids) => r is Ok && r->Ok_0@ == ids,
                Err(e) => r == Err::<HashSet<UserId>, HandlerError>(HandlerError::Content(e)),
            },
    {
        match self.content_repository.get_pinned(content_id) {
            Ok(ids) => Ok(ids),
            Err(e) => Err(HandlerError::Content(e)),
        }
    }

    /// Records that a user pinned a content item, or with `undo` takes the pin
    /// back, and gives the item as it is afterwards.
    pub fn content_pin_op(&mut self, content_id: ContentId, user_id: UserId, undo: bool) -> (r:
        Result<Content, HandlerError>)
        ensures
            final(self).user_repository.users() == old(self).user_repository.users(),
            handler_failed(r) || {
                let toggled = if undo {
                    relation_deleted(
                        old(self).content_repository.contents(),
                        ContentRelation::Pinned,
                        content_id,
                        user_id,
                    )
                } else {
                    relation_inserted(
                        old(self).content_repository.contents(),
                        ContentRelation::Pinned,
                        content_id,
                        user_id,
                    )
                };
                &&& final(self).content_repository.contents() == toggled.0
                &&& outcome_view(r) == content_toggled(Relation::Pin, undo, content_id, toggled)
            },
    {
        let answer = if undo {
            self.content_repository.delete_pinned(content_id, user_id)
        } else {
            self.content_repository.insert_pinned(content_id, user_id)
        };
        let changed = match answer {
            Ok(changed) => changed,
            Err(e) => { return Err(HandlerError::Content(e)); },
        };
        match judge_toggle(Relation::Pin, undo, changed) {
            Ok(_) => {},
            Err(e) => { return Err(e); },
        }
        match self.content_repository.find(content_id) {
            Ok(content) => Ok(content),
            Err(e) => Err(HandlerError::Content(e)),
        }
    }

    /// Removes the content item with the identifier `content_id`, and gives it
    /// as it was.
    pub fn withdraw_content(&mut self, content_id: ContentId) -> (r: Result<Content, HandlerError>)
        ensures
            final(self).user_repository.users() == old(self).user_repository.users(),
            handler_failed(r) || {
                let expected = deleted::<Content>(
                    old(self).content_repository.contents(),
                    content_id as int,
                );
                &&& final(self).content_repository.contents() == expected.0
                &&& outcome_view(r) == from_contents(expected.1)
            },
    {
        match self.content_repository.delete(content_id) {
            Ok(content) => Ok(content),
            Err(e) => Err(HandlerError::Content(e)),
        }
    }
}

} // verus!
