//! What follows from the repository contract, for every backend that keeps it.

use crate::entities::{Content, ContentId, ContentView, User, UserId, UserView};
use crate::mutation::{ContentMutation, UserMutation};
use crate::repositories::{
    bookmark_deleted, bookmark_inserted, content_updated, deleted, held, inserted, lookup,
    relation_deleted, relation_inserted, replaced, unique_keys, user_updated, with_key,
    without_key, ContentRelation, Record, RepositoryError,
};
use vstd::prelude::*;

verus! {

proof fn lemma_with_key_push<T: Record>(items: Seq<T::V>, item: T::V, key: int)
    ensures
        with_key::<T>(items.push(item), key) == if T::key_of(item) == key {
            with_key::<T>(items, key).push(item)
        } else {
            with_key::<T>(items, key)
        },
{
    reveal(Seq::filter);
    assert(items.push(item).drop_last() =~= items);
}

/// No record is found under a key exactly if no record has it.
proof fn lemma_with_key_empty<T: Record>(items: Seq<T::V>, key: int)
    ensures
        with_key::<T>(items, key).len() == 0 <==> (forall|j: int|
            0 <= j < items.len() ==> T::key_of(#[trigger] items[j]) != key),
    decreases items.len(),
{
    reveal(Seq::filter);
    if items.len() > 0 {
        let rest = items.drop_last();
        lemma_with_key_empty::<T>(rest, key);
        if with_key::<T>(items, key).len() == 0 {
            assert forall|j: int| 0 <= j < items.len() implies T::key_of(#[trigger] items[j])
                != key by {
                if j < rest.len() {
                    assert(rest[j] == items[j]);
                }
            }
        } else if T::key_of(items.last()) != key {
            let j = choose|j: int| 0 <= j < rest.len() && T::key_of(#[trigger] rest[j]) == key;
            assert(items[j] == rest[j]);
        }
    }
}

/// Where no two records share a key, at most one record is found under a key.
proof fn lemma_unique_keys_one_hit<T: Record>(items: Seq<T::V>, key: int)
    requires
        unique_keys::<T>(items),
    ensures
        with_key::<T>(items, key).len() <= 1,
    decreases items.len(),
{
    reveal(Seq::filter);
    if items.len() > 0 {
        let rest = items.drop_last();
        assert forall|i: int, j: int|
            0 <= i < rest.len() && 0 <= j < rest.len() && i != j implies T::key_of(rest[i])
            != T::key_of(rest[j]) by {
            assert(rest[i] == items[i] && rest[j] == items[j]);
        }
        lemma_unique_keys_one_hit::<T>(rest, key);
        if T::key_of(items.last()) == key {
            assert forall|j: int| 0 <= j < rest.len() implies T::key_of(#[trigger] rest[j])
                != key by {
                assert(rest[j] == items[j]);
                assert(items.last() == items[items.len() - 1]);
            }
            lemma_with_key_empty::<T>(rest, key);
        }
    }
}

/// The records left after taking out those with a key: none of them has it,
/// and each of them was there before.
proof fn lemma_without_key_members<T: Record>(items: Seq<T::V>, key: int)
    ensures
        forall|j: int|
            0 <= j < without_key::<T>(items, key).len() ==> T::key_of(
                #[trigger] without_key::<T>(items, key)[j],
            ) != key,
    decreases items.len(),
{
    reveal(Seq::filter);
    if items.len() > 0 {
        lemma_without_key_members::<T>(items.drop_last(), key);
    }
}

/// After replacing under a key, as many records are found under it as before,
/// and each of them is the new record.
proof fn lemma_with_key_replaced<T: Record>(items: Seq<T::V>, key: int, new: T::V)
    requires
        T::key_of(new) == key,
    ensures
        with_key::<T>(replaced::<T>(items, key, new), key).len() == with_key::<T>(
            items,
            key,
        ).len(),
        forall|j: int|
            0 <= j < with_key::<T>(replaced::<T>(items, key, new), key).len() ==> #[trigger] with_key::<
                T,
            >(replaced::<T>(items, key, new), key)[j] == new,
    decreases items.len(),
{
    reveal(Seq::filter);
    if items.len() > 0 {
        let rest = items.drop_last();
        lemma_with_key_replaced::<T>(rest, key, new);
        assert(replaced::<T>(items, key, new).drop_last() =~= replaced::<T>(rest, key, new));
    } else {
        assert(replaced::<T>(items, key, new) =~= items);
    }
}

/// Where the key is held once, the record found after a replacement under the
/// key is the new record.
proof fn lemma_lookup_replaced<T: Record>(items: Seq<T::V>, key: int, new: T::V)
    requires
        T::key_of(new) == key,
        lookup::<T>(items, key) is Ok,
    ensures
        lookup::<T>(replaced::<T>(items, key, new), key) == Ok::<T::V, RepositoryError>(new),
{
    lemma_with_key_replaced::<T>(items, key, new);
}

/// In an empty repository no key is found.
pub proof fn lemma_empty_holds_nothing<T: Record>(key: int)
    ensures
        lookup::<T>(Seq::<T::V>::empty(), key) == Err::<T::V, RepositoryError>(
            RepositoryError::NotFound,
        ),
        held::<T>(Seq::<T::V>::empty(), key) == Ok::<bool, RepositoryError>(false),
{
    reveal(Seq::filter);
}

/// A record inserted under a key that was not held is held afterwards, as it
/// was given. Inserting another record with the same key then answers `false`
/// and changes nothing.
pub proof fn lemma_insert_twice<T: Record>(items: Seq<T::V>, first: T::V, second: T::V)
    requires
        T::key_of(first) == T::key_of(second),
        lookup::<T>(items, T::key_of(first)) == Err::<T::V, RepositoryError>(
            RepositoryError::NotFound,
        ),
    ensures
        inserted::<T>(items, first) == (items.push(first), Ok::<bool, RepositoryError>(true)),
        inserted::<T>(items.push(first), second) == (
            items.push(first),
            Ok::<bool, RepositoryError>(false),
        ),
        lookup::<T>(items.push(first), T::key_of(first)) == Ok::<T::V, RepositoryError>(first),
{
    lemma_with_key_push::<T>(items, first, T::key_of(first));
}

/// Deleting under a key that is not held answers `NotFound` and changes
/// nothing. Deleting under a key that is held answers with the record as it
/// was, and afterwards the key is not found.
pub proof fn lemma_delete_then_find<T: Record>(items: Seq<T::V>, key: int)
    ensures
        lookup::<T>(items, key) == Err::<T::V, RepositoryError>(RepositoryError::NotFound)
            ==> deleted::<T>(items, key) == (
            items,
            Err::<T::V, RepositoryError>(RepositoryError::NotFound),
        ),
        lookup::<T>(items, key) is Ok ==> {
            &&& deleted::<T>(items, key).1 == lookup::<T>(items, key)
            &&& lookup::<T>(deleted::<T>(items, key).0, key) == Err::<T::V, RepositoryError>(
                RepositoryError::NotFound,
            )
            &&& held::<T>(deleted::<T>(items, key).0, key) == Ok::<bool, RepositoryError>(false)
        },
{
    lemma_without_key_members::<T>(items, key);
    lemma_with_key_empty::<T>(without_key::<T>(items, key), key);
}

/// Bookmarking twice answers `true`, then `false`. Bookmarking, then taking
/// the bookmark back twice answers `true`, `true`, `false`.
pub proof fn lemma_bookmark_toggle(users: Seq<UserView>, id: UserId, content_id: ContentId)
    requires
        lookup::<User>(users, id as int) is Ok,
        !lookup::<User>(users, id as int)->Ok_0.bookmark.contains(content_id),
    ensures
        ({
            let once = bookmark_inserted(users, id, content_id);
            let twice = bookmark_inserted(once.0, id, content_id);
            let back = bookmark_deleted(once.0, id, content_id);
            let back_again = bookmark_deleted(back.0, id, content_id);
            &&& once.1 == Ok::<bool, RepositoryError>(true)
            &&& twice.1 == Ok::<bool, RepositoryError>(false)
            &&& back.1 == Ok::<bool, RepositoryError>(true)
            &&& back_again.1 == Ok::<bool, RepositoryError>(false)
        }),
{
    let user = lookup::<User>(users, id as int)->Ok_0;
    assert(with_key::<User>(users, id as int).len() == 1);
    lemma_with_key_members::<User>(users, id as int);
    let with_it = UserView { bookmark: user.bookmark.insert(content_id), ..user };
    let once = bookmark_inserted(users, id, content_id);
    lemma_lookup_replaced::<User>(users, id as int, with_it);
    let without_it = UserView { bookmark: with_it.bookmark.remove(content_id), ..with_it };
    lemma_lookup_replaced::<User>(once.0, id as int, without_it);
}

/// Liking (or pinning) twice answers `true`, then `false`. Liking, then taking
/// the like back twice answers `true`, `true`, `false`.
pub proof fn lemma_relation_toggle(
    contents: Seq<ContentView>,
    relation: ContentRelation,
    id: ContentId,
    user_id: UserId,
)
    requires
        lookup::<Content>(contents, id as int) is Ok,
        !relation.of(lookup::<Content>(contents, id as int)->Ok_0).contains(user_id),
    ensures
        ({
            let once = relation_inserted(contents, relation, id, user_id);
            let twice = relation_inserted(once.0, relation, id, user_id);
            let back = relation_deleted(once.0, relation, id, user_id);
            let back_again = relation_deleted(back.0, relation, id, user_id);
            &&& once.1 == Ok::<bool, RepositoryError>(true)
            &&& twice.1 == Ok::<bool, RepositoryError>(false)
            &&& back.1 == Ok::<bool, RepositoryError>(true)
            &&& back_again.1 == Ok::<bool, RepositoryError>(false)
        }),
{
    let content = lookup::<Content>(contents, id as int)->Ok_0;
    assert(with_key::<Content>(contents, id as int).len() == 1);
    lemma_with_key_members::<Content>(contents, id as int);
    let with_it = relation.put(content, relation.of(content).insert(user_id));
    let once = relation_inserted(contents, relation, id, user_id);
    lemma_lookup_replaced::<Content>(contents, id as int, with_it);
    let without_it = relation.put(with_it, relation.of(with_it).remove(user_id));
    lemma_lookup_replaced::<Content>(once.0, id as int, without_it);
}

/// Every record found under a key has that key.
proof fn lemma_with_key_members<T: Record>(items: Seq<T::V>, key: int)
    ensures
        forall|j: int|
            0 <= j < with_key::<T>(items, key).len() ==> T::key_of(
                #[trigger] with_key::<T>(items, key)[j],
            ) == key,
    decreases items.len(),
{
    reveal(Seq::filter);
    if items.len() > 0 {
        lemma_with_key_members::<T>(items.drop_last(), key);
    }
}

/// Where no record has the key, leaving out the records with the key leaves
/// out nothing.
proof fn lemma_without_absent_key<T: Record>(items: Seq<T::V>, key: int)
    requires
        forall|j: int| 0 <= j < items.len() ==> T::key_of(#[trigger] items[j]) != key,
    ensures
        without_key::<T>(items, key) == items,
    decreases items.len(),
{
    reveal(Seq::filter);
    if items.len() > 0 {
        lemma_without_absent_key::<T>(items.drop_last(), key);
        assert(items.drop_last().push(items.last()) =~= items);
    }
}

/// Where one record alone has the key, taking it out leaves the records
/// without the key.
pub(crate) proof fn lemma_remove_unique_view<T: Record>(items: Seq<T::V>, i: int, key: int)
    requires
        0 <= i < items.len(),
        T::key_of(items[i]) == key,
        forall|j: int| 0 <= j < items.len() && j != i ==> T::key_of(#[trigger] items[j]) != key,
    ensures
        items.remove(i) == without_key::<T>(items, key),
    decreases items.len(),
{
    reveal(Seq::filter);
    let rest = items.drop_last();
    if i == items.len() - 1 {
        lemma_without_absent_key::<T>(rest, key);
        assert(items.remove(i) =~= rest);
    } else {
        lemma_remove_unique_view::<T>(rest, i, key);
        assert(items.remove(i) =~= rest.remove(i).push(items.last()));
    }
}

/// Where no two records share a key, a lookup never answers `NoUnique`.
pub proof fn lemma_unique_keys_never_ambiguous<T: Record>(items: Seq<T::V>, key: int)
    requires
        unique_keys::<T>(items),
    ensures
        lookup::<T>(items, key) is Ok || lookup::<T>(items, key) == Err::<T::V, RepositoryError>(
            RepositoryError::NotFound,
        ),
        held::<T>(items, key) is Ok,
{
    lemma_unique_keys_one_hit::<T>(items, key);
}

/// An empty repository has no two records with one key; inserting, replacing
/// a record by one of the same key, and deleting keep it so.
pub proof fn lemma_keys_stay_unique<T: Record>(items: Seq<T::V>, item: T::V, key: int, new: T::V)
    requires
        unique_keys::<T>(items),
    ensures
        unique_keys::<T>(Seq::<T::V>::empty()),
        unique_keys::<T>(inserted::<T>(items, item).0),
        T::key_of(new) == key ==> unique_keys::<T>(replaced::<T>(items, key, new)),
        unique_keys::<T>(deleted::<T>(items, key).0),
{
    lemma_with_key_empty::<T>(items, T::key_of(item));
    if lookup::<T>(items, key) is Ok {
        lemma_with_key_empty::<T>(items, key);
        let i = choose|i: int| 0 <= i < items.len() && T::key_of(#[trigger] items[i]) == key;
        lemma_remove_unique_view::<T>(items, i, key);
        let rest = items.remove(i);
        assert forall|a: int, b: int|
            0 <= a < rest.len() && 0 <= b < rest.len() && a != b implies T::key_of(rest[a])
            != T::key_of(rest[b]) by {
            let from_a = if a < i {
                a
            } else {
                a + 1
            };
            let from_b = if b < i {
                b
            } else {
                b + 1
            };
            assert(rest[a] == items[from_a] && rest[b] == items[from_b]);
        }
    }
}

/// Updating a user and toggling a bookmark keep it so that no two users
/// share a key.
pub proof fn lemma_user_keys_stay_unique(
    users: Seq<UserView>,
    id: UserId,
    mutation: UserMutation,
    content_id: ContentId,
)
    requires
        unique_keys::<User>(users),
    ensures
        unique_keys::<User>(user_updated(users, id, mutation).0),
        unique_keys::<User>(bookmark_inserted(users, id, content_id).0),
        unique_keys::<User>(bookmark_deleted(users, id, content_id).0),
{
    lemma_with_key_members::<User>(users, id as int);
    if lookup::<User>(users, id as int) is Ok {
        let user = lookup::<User>(users, id as int)->Ok_0;
        assert(user == with_key::<User>(users, id as int)[0]);
        lemma_keys_stay_unique::<User>(users, user, id as int, mutation.applied(user));
        lemma_keys_stay_unique::<User>(
            users,
            user,
            id as int,
            UserView { bookmark: user.bookmark.insert(content_id), ..user },
        );
        lemma_keys_stay_unique::<User>(
            users,
            user,
            id as int,
            UserView { bookmark: user.bookmark.remove(content_id), ..user },
        );
    }
}

/// Updating a content item and toggling a like or a pin keep it so that no
/// two content items share a key.
pub proof fn lemma_content_keys_stay_unique(
    contents: Seq<ContentView>,
    id: ContentId,
    mutation: ContentMutation,
    relation: ContentRelation,
    user_id: UserId,
)
    requires
        unique_keys::<Content>(contents),
    ensures
        unique_keys::<Content>(content_updated(contents, id, mutation).0),
        unique_keys::<Content>(relation_inserted(contents, relation, id, user_id).0),
        unique_keys::<Content>(relation_deleted(contents, relation, id, user_id).0),
{
    lemma_with_key_members::<Content>(contents, id as int);
    if lookup::<Content>(contents, id as int) is Ok {
        let content = lookup::<Content>(contents, id as int)->Ok_0;
        assert(content == with_key::<Content>(contents, id as int)[0]);
        lemma_keys_stay_unique::<Content>(contents, content, id as int, mutation.applied(content));
        lemma_keys_stay_unique::<Content>(
            contents,
            content,
            id as int,
            relation.put(content, relation.of(content).insert(user_id)),
        );
        lemma_keys_stay_unique::<Content>(
            contents,
            content,
            id as int,
            relation.put(content, relation.of(content).remove(user_id)),
        );
    }
}

} // verus!
