//! The in-memory backend: one sequence of records, searched from the front.

use crate::entities::{Content, ContentId, ContentView, User, UserId, UserView};
use crate::mutation::{ContentMutation, UserMutation};
use crate::query::{ContentQuery, UserQuery};
use crate::repositories::laws::{
    lemma_content_keys_stay_unique, lemma_keys_stay_unique, lemma_remove_unique_view,
    lemma_unique_keys_never_ambiguous, lemma_user_keys_stay_unique,
};
use crate::repositories::{
    answer_view, backend_failed, bookmark_deleted, bookmark_inserted, deleted, held, inserted,
    lookup, relation_deleted, relation_inserted, matching_contents, matching_users, replaced, unique_keys, views,
    with_key, without_key, ContentRelation, ContentRepository, Record, RepositoryError,
    UserRepository,
};
use crate::sets::clone_set;
use std::collections::HashSet;
use vstd::prelude::*;

verus! {

/// Where the one record with the key `key` stands. Every record is looked at,
/// so that a key held twice is noticed.
pub fn find_index<T: Record>(items: &Vec<T>, key: u128) -> (r: Result<usize, RepositoryError>)
    ensures
        match r {
            Ok(i) => {
                &&& i < items.len()
                &&& lookup::<T>(views(items@), key as int) == Ok::<T::V, RepositoryError>(
                    items[i as int]@,
                )
                &&& T::key_of(items[i as int]@) == key
                &&& forall|j: int|
                    0 <= j < items.len() && j != i ==> T::key_of(#[trigger] items[j]@) != key
            },
            Err(e) => lookup::<T>(views(items@), key as int) == Err::<T::V, RepositoryError>(e),
        },
{
    let ghost all = views(items@);
    let mut count: usize = 0;
    let mut found: usize = 0;
    let mut k: usize = 0;
    proof {
        reveal(Seq::filter);
        assert(all.take(0) =~= Seq::<T::V>::empty());
    }
    while k < items.len()
        invariant
            k <= items.len(),
            all == views(items@),
            count == with_key::<T>(all.take(k as int), key as int).len(),
            count <= k,
            count == 0 ==> forall|j: int| 0 <= j < k ==> T::key_of(#[trigger] items[j]@) != key,
            count >= 1 ==> found < k && with_key::<T>(all.take(k as int), key as int)[0]
                == items[found as int]@ && T::key_of(items[found as int]@) == key,
            count == 1 ==> forall|j: int|
                0 <= j < k && j != found ==> T::key_of(#[trigger] items[j]@) != key,
        decreases items.len() - k,
    {
        proof {
            reveal(Seq::filter);
            assert(all.take(k + 1).drop_last() =~= all.take(k as int));
            assert(all.take(k + 1).last() == items[k as int]@);
        }
        if items[k].key() == key {
            if count == 0 {
                found = k;
            }
            count += 1;
        }
        k += 1;
    }
    proof {
        assert(all.take(k as int) =~= all);
    }
    if count == 0 {
        Err(RepositoryError::NotFound)
    } else if count == 1 {
        Ok(found)
    } else {
        Err(RepositoryError::NoUnique { matched: #[verifier::truncate] (count as u32) })
    }
}

/// Adds `item` at the end unless its key is held.
fn insert_record<T: Record>(items: &mut Vec<T>, item: T) -> (r: Result<bool, RepositoryError>)
    ensures
        (views(final(items)@), r) == inserted::<T>(views(old(items)@), item@),
        !backend_failed(r),
        unique_keys::<T>(views(old(items)@)) ==> unique_keys::<T>(views(final(items)@))
            && !ambiguous(r),
{
    proof {
        lemma_unambiguous::<T>(views(items@), T::key_of(item@));
        lemma_insert_keeps_keys::<T>(views(items@), item@);
    }
    match find_index(items, item.key()) {
        Ok(_) => Ok(false),
        Err(RepositoryError::NotFound) => {
            proof {
                lemma_views_push(items@, item);
            }
            items.push(item);
            Ok(true)
        },
        Err(e) => Err(e),
    }
}

/// Tells whether a record with the key is held.
fn holds_record<T: Record>(items: &Vec<T>, key: u128) -> (r: Result<bool, RepositoryError>)
    ensures
        r == held::<T>(views(items@), key as int),
        !backend_failed(r),
        unique_keys::<T>(views(items@)) ==> !ambiguous(r),
{
    proof {
        lemma_unambiguous::<T>(views(items@), key as int);
    }
    match find_index(items, key) {
        Ok(_) => Ok(true),
        Err(RepositoryError::NotFound) => Ok(false),
        Err(e) => Err(e),
    }
}

/// Gives the record with the key.
fn find_record<T: Record>(items: &Vec<T>, key: u128) -> (r: Result<&T, RepositoryError>)
    ensures
        match r {
            Ok(item) => lookup::<T>(views(items@), key as int) == Ok::<T::V, RepositoryError>(
                item@,
            ),
            Err(e) => lookup::<T>(views(items@), key as int) == Err::<T::V, RepositoryError>(e),
        },
        !backend_failed(r),
        unique_keys::<T>(views(items@)) ==> !ambiguous(r),
{
    proof {
        lemma_unambiguous::<T>(views(items@), key as int);
    }
    match find_index(items, key) {
        Ok(i) => Ok(&items[i]),
        Err(e) => Err(e),
    }
}

/// Takes the record with the key out and gives it.
fn delete_record<T: Record>(items: &mut Vec<T>, key: u128) -> (r: Result<T, RepositoryError>)
    ensures
        (views(final(items)@), answer_view(r)) == deleted::<T>(views(old(items)@), key as int),
        !backend_failed(r),
        unique_keys::<T>(views(old(items)@)) ==> unique_keys::<T>(views(final(items)@))
            && !ambiguous(r),
{
    proof {
        lemma_unambiguous::<T>(views(items@), key as int);
        lemma_delete_keeps_keys::<T>(views(items@), key as int);
    }
    match find_index(items, key) {
        Ok(i) => {
            proof {
                lemma_remove_unique::<T>(items@, i as int, key as int);
            }
            Ok(items.remove(i))
        },
        Err(e) => Err(e),
    }
}

/// Adds a bookmark to the user with the key, or with `add` unset takes it
/// away, and tells whether that changed the user's bookmarks.
fn toggle_bookmark(items: &mut Vec<User>, id: UserId, content_id: ContentId, add: bool) -> (r: Result<
    bool,
    RepositoryError,
>)
    ensures
        (views(final(items)@), r) == if add {
            bookmark_inserted(views(old(items)@), id, content_id)
        } else {
            bookmark_deleted(views(old(items)@), id, content_id)
        },
        !backend_failed(r),
        unique_keys::<User>(views(old(items)@)) ==> unique_keys::<User>(views(final(items)@))
            && !ambiguous(r),
{
    proof {
        lemma_unambiguous::<User>(views(items@), id as int);
        lemma_bookmark_toggle_keeps_keys(views(items@), id, content_id);
    }
    match find_index(items, id as u128) {
        Ok(i) => {
            let ghost before = items@;
            let changed = if add {
                items[i].bookmark.insert(content_id)
            } else {
                items[i].bookmark.remove(&content_id)
            };
            proof {
                lemma_update_replaces::<User>(before, items@, i as int, id as int);
            }
            Ok(changed)
        },
        Err(e) => Err(e),
    }
}

/// Adds a user to a relation of the content item with the key, or with `add`
/// unset takes the user away, and tells whether that changed the relation.
fn toggle_relation(
    items: &mut Vec<Content>,
    relation: ContentRelation,
    id: ContentId,
    user_id: UserId,
    add: bool,
) -> (r: Result<bool, RepositoryError>)
    ensures
        (views(final(items)@), r) == if add {
            relation_inserted(views(old(items)@), relation, id, user_id)
        } else {
            relation_deleted(views(old(items)@), relation, id, user_id)
        },
        !backend_failed(r),
        unique_keys::<Content>(views(old(items)@)) ==> unique_keys::<Content>(
            views(final(items)@),
        ) && !ambiguous(r),
{
    proof {
        lemma_unambiguous::<Content>(views(items@), id as int);
        lemma_content_toggle_keeps_keys(views(items@), relation, id, user_id);
    }
    match find_index(items, id) {
        Ok(i) => {
            let ghost before = items@;
            let changed = match relation {
                ContentRelation::Liked => if add {
                    items[i].liked.insert(user_id)
                } else {
                    items[i].liked.remove(&user_id)
                },
                ContentRelation::Pinned => if add {
                    items[i].pinned.insert(user_id)
                } else {
                    items[i].pinned.remove(&user_id)
                },
            };
            proof {
                lemma_update_replaces::<Content>(before, items@, i as int, id as int);
            }
            Ok(changed)
        },
        Err(e) => Err(e),
    }
}

/// A repository that keeps its records in memory, in the order in which they
/// were inserted.
pub struct InMemoryRepository<T>(Vec<T>);

impl<T> InMemoryRepository<T> {
    /// The records held, oldest first.
    pub closed spec fn items(&self) -> Seq<T> {
        self.0@
    }
}

/// Whether an answer says that a key is held more than once.
pub open spec fn ambiguous<R>(answer: Result<R, RepositoryError>) -> bool {
    answer matches Err(RepositoryError::NoUnique { .. })
}

impl<T: Record> InMemoryRepository<T> {
    /// Whether no two records held share a key. An empty repository is so,
    /// and every operation keeps a repository so.
    pub open spec fn keys_unique(&self) -> bool {
        unique_keys::<T>(views(self.items()))
    }

    /// An empty repository.
    pub fn new() -> (repository: Self)
        ensures
            repository.items() == Seq::<T>::empty(),
            repository.keys_unique(),
    {
        InMemoryRepository(Vec::new())
    }
}

impl<T: Record> Default for InMemoryRepository<T> {
    fn default() -> (repository: Self)
        ensures
            repository.items() == Seq::<T>::empty(),
            repository.keys_unique(),
    {
        InMemoryRepository::new()
    }
}

proof fn lemma_views_push<T: View>(items: Seq<T>, item: T)
    ensures
        views(items.push(item)) == views(items).push(item@),
{
    assert(views(items.push(item)) =~= views(items).push(item@));
}

/// Where one record alone has the key, putting another in its place replaces
/// every record with the key.
proof fn lemma_update_replaces<T: Record>(before: Seq<T>, after: Seq<T>, i: int, key: int)
    requires
        0 <= i < before.len(),
        after.len() == before.len(),
        T::key_of(before[i]@) == key,
        forall|j: int| 0 <= j < before.len() && j != i ==> T::key_of(#[trigger] before[j]@) != key,
        forall|j: int| 0 <= j < before.len() && j != i ==> #[trigger] after[j]@ == before[j]@,
    ensures
        views(after) == replaced::<T>(views(before), key, after[i]@),
{
    assert(views(after) =~= replaced::<T>(views(before), key, after[i]@));
}

impl UserRepository for InMemoryRepository<User> {
    open spec fn users(&self) -> Seq<UserView> {
        views(self.items())
    }

    fn insert(&mut self, item: User) -> (r: Result<bool, RepositoryError>)
        ensures
            !backend_failed(r),
            old(self).keys_unique() ==> final(self).keys_unique() && !ambiguous(r),
    {
        insert_record(&mut self.0, item)
    }

    fn is_exists(&self, id: UserId) -> (r: Result<bool, RepositoryError>)
        ensures
            !backend_failed(r),
            self.keys_unique() ==> !ambiguous(r),
    {
        holds_record(&self.0, id as u128)
    }

    fn find(&self, id: UserId) -> (r: Result<User, RepositoryError>)
        ensures
            !backend_failed(r),
            self.keys_unique() ==> !ambiguous(r),
    {
        match find_record(&self.0, id as u128) {
            Ok(item) => Ok(item.clone()),
            Err(e) => Err(e),
        }
    }

    fn finds(&self, query: UserQuery) -> (r: Result<Vec<User>, RepositoryError>)
        ensures
            !backend_failed(r),
    {
        let ghost all = views(self.0@);
        let mut found: Vec<User> = Vec::new();
        let mut k: usize = 0;
        proof {
            reveal(Seq::filter);
            assert(all.take(0) =~= Seq::<UserView>::empty());
            assert(views(found@) =~= Seq::<UserView>::empty());
        }
        while k < self.0.len()
            invariant
                k <= self.0.len(),
                all == views(self.0@),
                views(found@) == matching_users(all.take(k as int), query),
            decreases self.0.len() - k,
        {
            proof {
                reveal(Seq::filter);
                assert(all.take(k + 1).drop_last() =~= all.take(k as int));
                assert(all.take(k + 1).last() == self.0[k as int]@);
            }
            if query.matches(&self.0[k]) {
                let copy = self.0[k].clone();
                proof {
                    lemma_views_push(found@, copy);
                }
                found.push(copy);
            }
            k += 1;
        }
        proof {
            assert(all.take(k as int) =~= all);
        }
        Ok(found)
    }

    fn update(&mut self, id: UserId, mutation: UserMutation) -> (r: Result<User, RepositoryError>)
        ensures
            !backend_failed(r),
            old(self).keys_unique() ==> final(self).keys_unique() && !ambiguous(r),
    {
        proof {
            lemma_unambiguous::<User>(views(self.0@), id as int);
            lemma_user_update_keeps_keys(views(self.0@), id, mutation);
        }
        match find_index(&self.0, id as u128) {
            Ok(i) => {
                let ghost before = self.0@;
                mutation.apply(&mut self.0[i]);
                proof {
                    lemma_update_replaces::<User>(before, self.0@, i as int, id as int);
                }
                Ok(self.0[i].clone())
            },
            Err(e) => Err(e),
        }
    }

    fn get_bookmark(&self, id: UserId) -> (r: Result<HashSet<ContentId>, RepositoryError>)
        ensures
            !backend_failed(r),
            self.keys_unique() ==> !ambiguous(r),
    {
        match find_record(&self.0, id as u128) {
            Ok(item) => Ok(clone_set(&item.bookmark)),
            Err(e) => Err(e),
        }
    }

    fn is_bookmark(&self, id: UserId, content_id: ContentId) -> (r: Result<bool, RepositoryError>)
        ensures
            !backend_failed(r),
            self.keys_unique() ==> !ambiguous(r),
    {
        match find_record(&self.0, id as u128) {
            Ok(item) => Ok(item.bookmark.contains(&content_id)),
            Err(e) => Err(e),
        }
    }

    fn insert_bookmark(&mut self, id: UserId, content_id: ContentId) -> (r: Result<
        bool,
        RepositoryError,
    >)
        ensures
            !backend_failed(r),
            old(self).keys_unique() ==> final(self).keys_unique() && !ambiguous(r),
    {
        toggle_bookmark(&mut self.0, id, content_id, true)
    }

    fn delete_bookmark(&mut self, id: UserId, content_id: ContentId) -> (r: Result<
        bool,
        RepositoryError,
    >)
        ensures
            !backend_failed(r),
            old(self).keys_unique() ==> final(self).keys_unique() && !ambiguous(r),
    {
        toggle_bookmark(&mut self.0, id, content_id, false)
    }

    fn delete(&mut self, id: UserId) -> (r: Result<User, RepositoryError>)
        ensures
            !backend_failed(r),
            old(self).keys_unique() ==> final(self).keys_unique() && !ambiguous(r),
    {
        delete_record(&mut self.0, id as u128)
    }
}

impl ContentRepository for InMemoryRepository<Content> {
    open spec fn contents(&self) -> Seq<ContentView> {
        views(self.items())
    }

    fn insert(&mut self, item: Content) -> (r: Result<bool, RepositoryError>)
        ensures
            !backend_failed(r),
            old(self).keys_unique() ==> final(self).keys_unique() && !ambiguous(r),
    {
        insert_record(&mut self.0, item)
    }

    fn is_exists(&self, id: ContentId) -> (r: Result<bool, RepositoryError>)
        ensures
            !backend_failed(r),
            self.keys_unique() ==> !ambiguous(r),
    {
        holds_record(&self.0, id)
    }

    fn find(&self, id: ContentId) -> (r: Result<Content, RepositoryError>)
        ensures
            !backend_failed(r),
            self.keys_unique() ==> !ambiguous(r),
    {
        match find_record(&self.0, id) {
            Ok(item) => Ok(item.clone()),
            Err(e) => Err(e),
        }
    }

    fn finds(&self, query: ContentQuery) -> (r: Result<Vec<Content>, RepositoryError>)
        ensures
            !backend_failed(r),
    {
        let ghost all = views(self.0@);
        let mut found: Vec<Content> = Vec::new();
        let mut k: usize = 0;
        proof {
            reveal(Seq::filter);
            assert(all.take(0) =~= Seq::<ContentView>::empty());
            assert(views(found@) =~= Seq::<ContentView>::empty());
        }
        while k < self.0.len()
            invariant
                k <= self.0.len(),
                all == views(self.0@),
                views(found@) == matching_contents(all.take(k as int), query),
            decreases self.0.len() - k,
        {
            proof {
                reveal(Seq::filter);
                assert(all.take(k + 1).drop_last() =~= all.take(k as int));
                assert(all.take(k + 1).last() == self.0[k as int]@);
            }
            if query.matches(&self.0[k]) {
                let copy = self.0[k].clone();
                proof {
                    lemma_views_push(found@, copy);
                }
                found.push(copy);
            }
            k += 1;
        }
        proof {
            assert(all.take(k as int) =~= all);
        }
        Ok(found)
    }

    fn update(&mut self, id: ContentId, mutation: ContentMutation) -> (r: Result<
        Content,
        RepositoryError,
    >)
        ensures
            !backend_failed(r),
            old(self).keys_unique() ==> final(self).keys_unique() && !ambiguous(r),
    {
        proof {
            lemma_unambiguous::<Content>(views(self.0@), id as int);
            lemma_content_update_keeps_keys(views(self.0@), id, mutation);
        }
        match find_index(&self.0, id) {
            Ok(i) => {
                let ghost before = self.0@;
                mutation.apply(&mut self.0[i]);
                proof {
                    lemma_update_replaces::<Content>(before, self.0@, i as int, id as int);
                }
                Ok(self.0[i].clone())
            },
            Err(e) => Err(e),
        }
    }

    fn get_liked(&self, id: ContentId) -> (r: Result<HashSet<UserId>, RepositoryError>)
        ensures
            !backend_failed(r),
            self.keys_unique() ==> !ambiguous(r),
    {
        match find_record(&self.0, id) {
            Ok(item) => Ok(clone_set(&item.liked)),
            Err(e) => Err(e),
        }
    }

    fn is_liked(&self, id: ContentId, user_id: UserId) -> (r: Result<bool, RepositoryError>)
        ensures
            !backend_failed(r),
            self.keys_unique() ==> !ambiguous(r),
    {
        match find_record(&self.0, id) {
            Ok(item) => Ok(item.liked.contains(&user_id)),
            Err(e) => Err(e),
        }
    }

    fn insert_liked(&mut self, id: ContentId, user_id: UserId) -> (r: Result<bool, RepositoryError>)
        ensures
            !backend_failed(r),
            old(self).keys_unique() ==> final(self).keys_unique() && !ambiguous(r),
    {
        toggle_relation(&mut self.0, ContentRelation::Liked, id, user_id, true)
    }

    fn delete_liked(&mut self, id: ContentId, user_id: UserId) -> (r: Result<bool, RepositoryError>)
        ensures
            !backend_failed(r),
            old(self).keys_unique() ==> final(self).keys_unique() && !ambiguous(r),
    {
        toggle_relation(&mut self.0, ContentRelation::Liked, id, user_id, false)
    }

    fn get_pinned(&self, id: ContentId) -> (r: Result<HashSet<UserId>, RepositoryError>)
        ensures
            !backend_failed(r),
            self.keys_unique() ==> !ambiguous(r),
    {
        match find_record(&self.0, id) {
            Ok(item) => Ok(clone_set(&item.pinned)),
            Err(e) => Err(e),
        }
    }

    fn is_pinned(&self, id: ContentId, user_id: UserId) -> (r: Result<bool, RepositoryError>)
        ensures
            !backend_failed(r),
            self.keys_unique() ==> !ambiguous(r),
    {
        match find_record(&self.0, id) {
            Ok(item) => Ok(item.pinned.contains(&user_id)),
            Err(e) => Err(e),
        }
    }

    fn insert_pinned(&mut self, id: ContentId, user_id: UserId) -> (r: Result<bool, RepositoryError>)
        ensures
            !backend_failed(r),
            old(self).keys_unique() ==> final(self).keys_unique() && !ambiguous(r),
    {
        toggle_relation(&mut self.0, ContentRelation::Pinned, id, user_id, true)
    }

    fn delete_pinned(&mut self, id: ContentId, user_id: UserId) -> (r: Result<bool, RepositoryError>)
        ensures
            !backend_failed(r),
            old(self).keys_unique() ==> final(self).keys_unique() && !ambiguous(r),
    {
        toggle_relation(&mut self.0, ContentRelation::Pinned, id, user_id, false)
    }

    fn delete(&mut self, id: ContentId) -> (r: Result<Content, RepositoryError>)
        ensures
            !backend_failed(r),
            old(self).keys_unique() ==> final(self).keys_unique() && !ambiguous(r),
    {
        delete_record(&mut self.0, id)
    }
}

proof fn lemma_remove_unique<T: Record>(items: Seq<T>, i: int, key: int)
    requires
        0 <= i < items.len(),
        T::key_of(items[i]@) == key,
        forall|j: int| 0 <= j < items.len() && j != i ==> T::key_of(#[trigger] items[j]@) != key,
    ensures
        views(items.remove(i)) == without_key::<T>(views(items), key),
{
    let all = views(items);
    assert forall|j: int| 0 <= j < all.len() && j != i implies T::key_of(#[trigger] all[j])
        != key by {
        assert(all[j] == items[j]@);
    }
    lemma_remove_unique_view::<T>(all, i, key);
    assert(views(items.remove(i)) =~= all.remove(i));
}

proof fn lemma_user_update_keeps_keys(users: Seq<UserView>, id: UserId, mutation: UserMutation)
    ensures
        unique_keys::<User>(users) ==> unique_keys::<User>(
            crate::repositories::user_updated(users, id, mutation).0,
        ),
{
    if unique_keys::<User>(users) {
        lemma_user_keys_stay_unique(users, id, mutation, 0);
    }
}

proof fn lemma_content_update_keeps_keys(
    contents: Seq<ContentView>,
    id: ContentId,
    mutation: ContentMutation,
)
    ensures
        unique_keys::<Content>(contents) ==> unique_keys::<Content>(
            crate::repositories::content_updated(contents, id, mutation).0,
        ),
{
    if unique_keys::<Content>(contents) {
        lemma_content_keys_stay_unique(contents, id, mutation, ContentRelation::Liked, 0);
    }
}

proof fn lemma_content_toggle_keeps_keys(
    contents: Seq<ContentView>,
    relation: ContentRelation,
    id: ContentId,
    user_id: UserId,
)
    ensures
        unique_keys::<Content>(contents) ==> unique_keys::<Content>(
            crate::repositories::relation_inserted(contents, relation, id, user_id).0,
        ) && unique_keys::<Content>(
            crate::repositories::relation_deleted(contents, relation, id, user_id).0,
        ),
{
    if unique_keys::<Content>(contents) {
        lemma_content_keys_stay_unique(
            contents,
            id,
            ContentMutation { author: None, content: None, edited: 0 },
            relation,
            user_id,
        );
    }
}

proof fn lemma_unambiguous<T: Record>(items: Seq<T::V>, key: int)
    ensures
        unique_keys::<T>(items) ==> !ambiguous(lookup::<T>(items, key)) && !ambiguous(
            crate::repositories::held::<T>(items, key),
        ),
{
    if unique_keys::<T>(items) {
        lemma_unique_keys_never_ambiguous::<T>(items, key);
    }
}

proof fn lemma_insert_keeps_keys<T: Record>(items: Seq<T::V>, item: T::V)
    ensures
        unique_keys::<T>(items) ==> unique_keys::<T>(
            crate::repositories::inserted::<T>(items, item).0,
        ),
{
    if unique_keys::<T>(items) {
        lemma_keys_stay_unique::<T>(items, item, 0, item);
    }
}

proof fn lemma_delete_keeps_keys<T: Record>(items: Seq<T::V>, key: int)
    ensures
        unique_keys::<T>(items) ==> unique_keys::<T>(deleted::<T>(items, key).0),
{
    if unique_keys::<T>(items) {
        let any = arbitrary::<T::V>();
        lemma_keys_stay_unique::<T>(items, any, key, any);
    }
}

proof fn lemma_bookmark_toggle_keeps_keys(users: Seq<UserView>, id: UserId, content_id: ContentId)
    ensures
        unique_keys::<User>(users) ==> unique_keys::<User>(
            bookmark_inserted(users, id, content_id).0,
        ) && unique_keys::<User>(bookmark_deleted(users, id, content_id).0),
{
    if unique_keys::<User>(users) {
        lemma_user_keys_stay_unique(
            users,
            id,
            UserMutation { admin: None, sub_admin: None },
            content_id,
        );
    }
}

} // verus!
