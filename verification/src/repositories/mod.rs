//! The repository contract: what storing, finding, changing and removing
//! records means, whatever the backend, stated over the sequence of records
//! that a repository holds.

use crate::entities::{Content, ContentId, ContentView, User, UserId, UserView};
use crate::mutation::{ContentMutation, UserMutation};
use crate::query::{ContentQuery, UserQuery};
use crate::text::{decimal_string, decimal_text};
use std::collections::HashSet;
use vstd::prelude::*;

pub mod document;
pub mod document_laws;
pub mod laws;
pub mod mock;

verus! {

/// Why a repository operation gave no result.
#[derive(Clone, Debug, PartialEq, Eq)]
pub enum RepositoryError {
    /// No record has the key.
    NotFound,
    /// More than one record has a key that should be unique.
    NoUnique { matched: u32 },
    /// The backend failed; the text says how.
    Internal(String),
}

impl RepositoryError {
    /// What the error says, as a text.
    pub open spec fn message_text(&self) -> Seq<char> {
        match *self {
            RepositoryError::NotFound => "cannot find object."@,
            RepositoryError::NoUnique { matched } => {
                "expected unique object, found non-unique objects (matched: "@ + decimal_text(
                    matched as nat,
                ) + ")"@
            },
            RepositoryError::Internal(cause) => "internal error: "@ + cause@,
        }
    }

    /// Writes the error out for a reader.
    pub fn message(&self) -> (text: String)
        ensures
            text@ == self.message_text(),
    {
        match self {
            RepositoryError::NotFound => String::from_str("cannot find object."),
            RepositoryError::NoUnique { matched } => {
                let mut text = String::from_str(
                    "expected unique object, found non-unique objects (matched: ",
                );
                text.append(decimal_string(*matched as u64).as_str());
                text.append(")");
                text
            },
            RepositoryError::Internal(cause) => {
                let mut text = String::from_str("internal error: ");
                text.append(cause.as_str());
                text
            },
        }
    }
}

/// A kind of record that a repository holds: it has a key by which it is
/// found again.
pub trait Record: View + Sized {
    /// The key of a record, as a number.
    spec fn key_of(record: Self::V) -> int;

    /// The key of this record.
    fn key(&self) -> (k: u128)
        ensures
            k == Self::key_of(self@),
    ;
}

/// The records as mathematical values, in the same order.
pub open spec fn views<T: View>(items: Seq<T>) -> Seq<T::V> {
    items.map_values(|item: T| item@)
}

/// The records that have the key `key`, in the order in which they are held.
pub open spec fn with_key<T: Record>(items: Seq<T::V>, key: int) -> Seq<T::V> {
    items.filter(|record: T::V| T::key_of(record) == key)
}

/// The records that do not have the key `key`, in the order in which they are held.
pub open spec fn without_key<T: Record>(items: Seq<T::V>, key: int) -> Seq<T::V> {
    items.filter(|record: T::V| T::key_of(record) != key)
}

/// `items` with each record of key `key` replaced by `new`.
pub open spec fn replaced<T: Record>(items: Seq<T::V>, key: int, new: T::V) -> Seq<T::V> {
    items.map_values(
        |record: T::V|
            if T::key_of(record) == key {
                new
            } else {
                record
            },
    )
}

/// Whether no two records share a key.
pub open spec fn unique_keys<T: Record>(items: Seq<T::V>) -> bool {
    forall|i: int, j: int|
        0 <= i < items.len() && 0 <= j < items.len() && i != j ==> T::key_of(items[i])
            != T::key_of(items[j])
}

/// Looking a key up: the one record that has it. No record is `NotFound`; more
/// than one is `NoUnique`, with their number.
pub open spec fn lookup<T: Record>(items: Seq<T::V>, key: int) -> Result<T::V, RepositoryError> {
    let hits = with_key::<T>(items, key);
    if hits.len() == 0 {
        Err(RepositoryError::NotFound)
    } else if hits.len() == 1 {
        Ok(hits[0])
    } else {
        Err(RepositoryError::NoUnique { matched: hits.len() as u32 })
    }
}

/// Whether a record with the key is held.
pub open spec fn held<T: Record>(items: Seq<T::V>, key: int) -> Result<bool, RepositoryError> {
    match lookup::<T>(items, key) {
        Ok(_) => Ok(true),
        Err(RepositoryError::NotFound) => Ok(false),
        Err(e) => Err(e),
    }
}

/// Inserting: a record with a new key goes to the end and the answer is
/// `true`; where the key is held already nothing changes and the answer is `false`.
pub open spec fn inserted<T: Record>(items: Seq<T::V>, item: T::V) -> (
    Seq<T::V>,
    Result<bool, RepositoryError>,
) {
    match lookup::<T>(items, T::key_of(item)) {
        Ok(_) => (items, Ok(false)),
        Err(RepositoryError::NotFound) => (items.push(item), Ok(true)),
        Err(e) => (items, Err(e)),
    }
}

/// Deleting: the record with the key leaves, and is the answer.
pub open spec fn deleted<T: Record>(items: Seq<T::V>, key: int) -> (
    Seq<T::V>,
    Result<T::V, RepositoryError>,
) {
    match lookup::<T>(items, key) {
        Ok(record) => (without_key::<T>(items, key), Ok(record)),
        Err(e) => (items, Err(e)),
    }
}

impl Record for User {
    open spec fn key_of(record: UserView) -> int {
        record.id as int
    }

    fn key(&self) -> (k: u128) {
        self.id as u128
    }
}

impl Record for Content {
    open spec fn key_of(record: ContentView) -> int {
        record.id as int
    }

    fn key(&self) -> (k: u128) {
        self.id
    }
}

/// An answer that holds a record, with the record as a mathematical value.
pub open spec fn answer_view<T: View>(answer: Result<T, RepositoryError>) -> Result<
    T::V,
    RepositoryError,
> {
    match answer {
        Ok(item) => Ok(item@),
        Err(e) => Err(e),
    }
}

/// An answer that holds records, with the records as mathematical values.
pub open spec fn answers_view<T: View>(answer: Result<Vec<T>, RepositoryError>) -> Result<
    Seq<T::V>,
    RepositoryError,
> {
    match answer {
        Ok(items) => Ok(views(items@)),
        Err(e) => Err(e),
    }
}

/// An answer that holds a set of identifiers, with the set as a mathematical value.
pub open spec fn ids_answer_view<K>(answer: Result<HashSet<K>, RepositoryError>) -> Result<
    Set<K>,
    RepositoryError,
> {
    match answer {
        Ok(ids) => Ok(ids@),
        Err(e) => Err(e),
    }
}

/// Whether an answer says that the backend itself failed. Of such an answer,
/// and of what the repository holds after it, the contract says nothing.
pub open spec fn backend_failed<R>(answer: Result<R, RepositoryError>) -> bool {
    answer matches Err(RepositoryError::Internal(_))
}

/// The users that a query finds, in the order in which they are held.
pub open spec fn matching_users(users: Seq<UserView>, query: UserQuery) -> Seq<UserView> {
    users.filter(|user: UserView| query.accepts(user))
}

/// Updating a user: the user with the key is replaced by what the mutation
/// makes of it, which is the answer.
pub open spec fn user_updated(users: Seq<UserView>, id: UserId, mutation: UserMutation) -> (
    Seq<UserView>,
    Result<UserView, RepositoryError>,
) {
    match lookup::<User>(users, id as int) {
        Ok(user) => (
            replaced::<User>(users, id as int, mutation.applied(user)),
            Ok(mutation.applied(user)),
        ),
        Err(e) => (users, Err(e)),
    }
}

/// The bookmarks of the user with the key.
pub open spec fn bookmarks_of(users: Seq<UserView>, id: UserId) -> Result<
    Set<ContentId>,
    RepositoryError,
> {
    match lookup::<User>(users, id as int) {
        Ok(user) => Ok(user.bookmark),
        Err(e) => Err(e),
    }
}

/// Whether the user with the key has bookmarked `content_id`.
pub open spec fn bookmark_held(users: Seq<UserView>, id: UserId, content_id: ContentId) -> Result<
    bool,
    RepositoryError,
> {
    match lookup::<User>(users, id as int) {
        Ok(user) => Ok(user.bookmark.contains(content_id)),
        Err(e) => Err(e),
    }
}

/// Adding a bookmark: afterwards the user has it, and the answer says whether
/// that is new.
pub open spec fn bookmark_inserted(users: Seq<UserView>, id: UserId, content_id: ContentId) -> (
    Seq<UserView>,
    Result<bool, RepositoryError>,
) {
    match lookup::<User>(users, id as int) {
        Ok(user) => (
            replaced::<User>(
                users,
                id as int,
                UserView { bookmark: user.bookmark.insert(content_id), ..user },
            ),
            Ok(!user.bookmark.contains(content_id)),
        ),
        Err(e) => (users, Err(e)),
    }
}

/// Removing a bookmark: afterwards the user is without it, and the answer says
/// whether it was there.
pub open spec fn bookmark_deleted(users: Seq<UserView>, id: UserId, content_id: ContentId) -> (
    Seq<UserView>,
    Result<bool, RepositoryError>,
) {
    match lookup::<User>(users, id as int) {
        Ok(user) => (
            replaced::<User>(
                users,
                id as int,
                UserView { bookmark: user.bookmark.remove(content_id), ..user },
            ),
            Ok(user.bookmark.contains(content_id)),
        ),
        Err(e) => (users, Err(e)),
    }
}

/// A store of users. Unless the backend itself fails, each operation answers,
/// and leaves the store, as the functions above say.
pub trait UserRepository {
    /// The users held, in the order in which the backend keeps them.
    spec fn users(&self) -> Seq<UserView>;

    /// Stores a user, unless one with the same identity is held already.
    fn insert(&mut self, item: User) -> (r: Result<bool, RepositoryError>)
        ensures
            backend_failed(r) || (final(self).users(), r) == inserted::<User>(
                old(self).users(),
                item@,
            ),
    ;

    /// Tells whether a user with this identity is held.
    fn is_exists(&self, id: UserId) -> (r: Result<bool, RepositoryError>)
        ensures
            backend_failed(r) || r == held::<User>(self.users(), id as int),
    ;

    /// Gives the user with this identity.
    fn find(&self, id: UserId) -> (r: Result<User, RepositoryError>)
        ensures
            backend_failed(r) || answer_view(r) == lookup::<User>(self.users(), id as int),
    ;

    /// Gives every user that the query accepts.
    fn finds(&self, query: UserQuery) -> (r: Result<Vec<User>, RepositoryError>)
        ensures
            backend_failed(r) || answers_view(r) == Ok::<Seq<UserView>, RepositoryError>(
                matching_users(self.users(), query),
            ),
    ;

    /// Applies a mutation to the user with this identity and gives the result.
    fn update(&mut self, id: UserId, mutation: UserMutation) -> (r: Result<User, RepositoryError>)
        ensures
            backend_failed(r) || (final(self).users(), answer_view(r)) == user_updated(
                old(self).users(),
                id,
                mutation,
            ),
    ;

    /// Gives the bookmarks of the user with this identity.
    fn get_bookmark(&self, id: UserId) -> (r: Result<HashSet<ContentId>, RepositoryError>)
        ensures
            backend_failed(r) || ids_answer_view(r) == bookmarks_of(self.users(), id),
    ;

    /// Tells whether the user has bookmarked the content item.
    fn is_bookmark(&self, id: UserId, content_id: ContentId) -> (r: Result<bool, RepositoryError>)
        ensures
            backend_failed(r) || r == bookmark_held(self.users(), id, content_id),
    ;

    /// Adds a bookmark. The answer is `true` where the user did not have it.
    fn insert_bookmark(&mut self, id: UserId, content_id: ContentId) -> (r: Result<
        bool,
        RepositoryError,
    >)
        ensures
            backend_failed(r) || (final(self).users(), r) == bookmark_inserted(
                old(self).users(),
                id,
                content_id,
            ),
    ;

    /// Removes a bookmark. The answer is `true` where the user had it.
    fn delete_bookmark(&mut self, id: UserId, content_id: ContentId) -> (r: Result<
        bool,
        RepositoryError,
    >)
        ensures
            backend_failed(r) || (final(self).users(), r) == bookmark_deleted(
                old(self).users(),
                id,
                content_id,
            ),
    ;

    /// Removes the user with this identity and gives it as it was.
    fn delete(&mut self, id: UserId) -> (r: Result<User, RepositoryError>)
        ensures
            backend_failed(r) || (final(self).users(), answer_view(r)) == deleted::<User>(
                old(self).users(),
                id as int,
            ),
    ;
}

/// The content items that a query finds, in the order in which they are held.
pub open spec fn matching_contents(contents: Seq<ContentView>, query: ContentQuery) -> Seq<
    ContentView,
> {
    contents.filter(|content: ContentView| query.accepts(content))
}

/// Updating a content item: the item with the key is replaced by what the
/// mutation makes of it, which is the answer.
pub open spec fn content_updated(
    contents: Seq<ContentView>,
    id: ContentId,
    mutation: ContentMutation,
) -> (Seq<ContentView>, Result<ContentView, RepositoryError>) {
    match lookup::<Content>(contents, id as int) {
        Ok(content) => (
            replaced::<Content>(contents, id as int, mutation.applied(content)),
            Ok(mutation.applied(content)),
        ),
        Err(e) => (contents, Err(e)),
    }
}

/// A relation between content items and users: the users who like an item, or
/// those who pinned it.
#[derive(Clone, Copy, Debug, PartialEq, Eq, Structural)]
pub enum ContentRelation {
    Liked,
    Pinned,
}

impl ContentRelation {
    /// The users that the relation holds for `content`.
    pub open spec fn of(self, content: ContentView) -> Set<UserId> {
        match self {
            ContentRelation::Liked => content.liked,
            ContentRelation::Pinned => content.pinned,
        }
    }

    /// `content` with `users` as the users that the relation holds.
    pub open spec fn put(self, content: ContentView, users: Set<UserId>) -> ContentView {
        match self {
            ContentRelation::Liked => ContentView { liked: users, ..content },
            ContentRelation::Pinned => ContentView { pinned: users, ..content },
        }
    }
}

/// The users that a relation holds for the content item with the key.
pub open spec fn related_of(
    contents: Seq<ContentView>,
    relation: ContentRelation,
    id: ContentId,
) -> Result<Set<UserId>, RepositoryError> {
    match lookup::<Content>(contents, id as int) {
        Ok(content) => Ok(relation.of(content)),
        Err(e) => Err(e),
    }
}

/// Whether a relation holds between the content item with the key and `user_id`.
pub open spec fn relation_held(
    contents: Seq<ContentView>,
    relation: ContentRelation,
    id: ContentId,
    user_id: UserId,
) -> Result<bool, RepositoryError> {
    match lookup::<Content>(contents, id as int) {
        Ok(content) => Ok(relation.of(content).contains(user_id)),
        Err(e) => Err(e),
    }
}

/// Adding to a relation: afterwards it holds, and the answer says whether that
/// is new.
pub open spec fn relation_inserted(
    contents: Seq<ContentView>,
    relation: ContentRelation,
    id: ContentId,
    user_id: UserId,
) -> (Seq<ContentView>, Result<bool, RepositoryError>) {
    match lookup::<Content>(contents, id as int) {
        Ok(content) => (
            replaced::<Content>(
                contents,
                id as int,
                relation.put(content, relation.of(content).insert(user_id)),
            ),
            Ok(!relation.of(content).contains(user_id)),
        ),
        Err(e) => (contents, Err(e)),
    }
}

/// Removing from a relation: afterwards it does not hold, and the answer says
/// whether it did.
pub open spec fn relation_deleted(
    contents: Seq<ContentView>,
    relation: ContentRelation,
    id: ContentId,
    user_id: UserId,
) -> (Seq<ContentView>, Result<bool, RepositoryError>) {
    match lookup::<Content>(contents, id as int) {
        Ok(content) => (
            replaced::<Content>(
                contents,
                id as int,
                relation.put(content, relation.of(content).remove(user_id)),
            ),
            Ok(relation.of(content).contains(user_id)),
        ),
        Err(e) => (contents, Err(e)),
    }
}

/// A store of content items. Unless the backend itself fails, each operation
/// answers, and leaves the store, as the functions above say.
pub trait ContentRepository {
    /// The content items held, in the order in which the backend keeps them.
    spec fn contents(&self) -> Seq<ContentView>;

    /// Stores a content item, unless one with the same identity is held already.
    fn insert(&mut self, item: Content) -> (r: Result<bool, RepositoryError>)
        ensures
            backend_failed(r) || (final(self).contents(), r) == inserted::<Content>(
                old(self).contents(),
                item@,
            ),
    ;

    /// Tells whether a content item with this identity is held.
    fn is_exists(&self, id: ContentId) -> (r: Result<bool, RepositoryError>)
        ensures
            backend_failed(r) || r == held::<Content>(self.contents(), id as int),
    ;

    /// Gives the content item with this identity.
    fn find(&self, id: ContentId) -> (r: Result<Content, RepositoryError>)
        ensures
            backend_failed(r) || answer_view(r) == lookup::<Content>(self.contents(), id as int),
    ;

    /// Gives every content item that the query accepts.
    fn finds(&self, query: ContentQuery) -> (r: Result<Vec<Content>, RepositoryError>)
        ensures
            backend_failed(r) || answers_view(r) == Ok::<Seq<ContentView>, RepositoryError>(
                matching_contents(self.contents(), query),
            ),
    ;

    /// Applies a mutation to the content item with this identity and gives the
    /// result.
    fn update(&mut self, id: ContentId, mutation: ContentMutation) -> (r: Result<
        Content,
        RepositoryError,
    >)
        ensures
            backend_failed(r) || (final(self).contents(), answer_view(r)) == content_updated(
                old(self).contents(),
                id,
                mutation,
            ),
    ;

    /// Gives the users who like the content item.
    fn get_liked(&self, id: ContentId) -> (r: Result<HashSet<UserId>, RepositoryError>)
        ensures
            backend_failed(r) || ids_answer_view(r) == related_of(
                self.contents(),
                ContentRelation::Liked,
                id,
            ),
    ;

    /// Tells whether the user likes the content item.
    fn is_liked(&self, id: ContentId, user_id: UserId) -> (r: Result<bool, RepositoryError>)
        ensures
            backend_failed(r) || r == relation_held(
                self.contents(),
                ContentRelation::Liked,
                id,
                user_id,
            ),
    ;

    /// Records a like. The answer is `true` where the user did not like the
    /// item before.
    fn insert_liked(&mut self, id: ContentId, user_id: UserId) -> (r: Result<bool, RepositoryError>)
        ensures
            backend_failed(r) || (final(self).contents(), r) == relation_inserted(
                old(self).contents(),
                ContentRelation::Liked,
                id,
                user_id,
            ),
    ;

    /// Takes a like back. The answer is `true` where the user liked the item.
    fn delete_liked(&mut self, id: ContentId, user_id: UserId) -> (r: Result<bool, RepositoryError>)
        ensures
            backend_failed(r) || (final(self).contents(), r) == relation_deleted(
                old(self).contents(),
                ContentRelation::Liked,
                id,
                user_id,
            ),
    ;

    /// Gives the users who pinned the content item.
    fn get_pinned(&self, id: ContentId) -> (r: Result<HashSet<UserId>, RepositoryError>)
        ensures
            backend_failed(r) || ids_answer_view(r) == related_of(
                self.contents(),
                ContentRelation::Pinned,
                id,
            ),
    ;

    /// Tells whether the user pinned the content item.
    fn is_pinned(&self, id: ContentId, user_id: UserId) -> (r: Result<bool, RepositoryError>)
        ensures
            backend_failed(r) || r == relation_held(
                self.contents(),
                ContentRelation::Pinned,
                id,
                user_id,
            ),
    ;

    /// Records a pin. The answer is `true` where the user had not pinned the
    /// item before.
    fn insert_pinned(&mut self, id: ContentId, user_id: UserId) -> (r: Result<bool, RepositoryError>)
        ensures
            backend_failed(r) || (final(self).contents(), r) == relation_inserted(
                old(self).contents(),
                ContentRelation::Pinned,
                id,
                user_id,
            ),
    ;

    /// Takes a pin back. The answer is `true` where the user had pinned the item.
    fn delete_pinned(&mut self, id: ContentId, user_id: UserId) -> (r: Result<bool, RepositoryError>)
        ensures
            backend_failed(r) || (final(self).contents(), r) == relation_deleted(
                old(self).contents(),
                ContentRelation::Pinned,
                id,
                user_id,
            ),
    ;

    /// Removes the content item with this identity and gives it as it was.
    fn delete(&mut self, id: ContentId) -> (r: Result<Content, RepositoryError>)
        ensures
            backend_failed(r) || (final(self).contents(), answer_view(r)) == deleted::<Content>(
                old(self).contents(),
                id as int,
            ),
    ;
}

} // verus!
