//! Why the document-store backend finds the right users: searching the
//! partitions one by one and joining what they give comes to the same as
//! testing each whole user against the query.

use crate::entities::{User, UserId, UserView};
use crate::query::{count_holds, ids_view, subset_holds, UserQuery};
use crate::repositories::document::{
    assembled, assembled_one, common_keys, first_with, has_key, held_once_in, joined, times_held,
    MainRecord, RelationFilter, RelationView, Violation,
};
use crate::repositories::{matching_users, unique_keys, Record};
use vstd::prelude::*;

verus! {

/// The main records of a store that holds `users`.
pub open spec fn main_partition(users: Seq<UserView>) -> Seq<MainRecord> {
    users.map_values(
        |user: UserView| MainRecord { id: user.id, admin: user.admin, sub_admin: user.sub_admin },
    )
}

/// The `posted` records of a store that holds `users`.
pub open spec fn posted_partition(users: Seq<UserView>) -> Seq<RelationView> {
    users.map_values(
        |user: UserView|
            RelationView { id: user.id, set: user.posted, size: user.posted.len() as u64 },
    )
}

/// The `bookmark` records of a store that holds `users`.
pub open spec fn bookmark_partition(users: Seq<UserView>) -> Seq<RelationView> {
    users.map_values(
        |user: UserView|
            RelationView { id: user.id, set: user.bookmark, size: user.bookmark.len() as u64 },
    )
}

/// The test that a filter stands for.
pub open spec fn accepted_by(filter: RelationFilter) -> spec_fn(RelationView) -> bool {
    |record: RelationView| filter.accepts(record.set, record.size as int)
}

/// The records that the store selects from a partition by a filter, in the
/// order in which it holds them.
pub open spec fn selected(records: Seq<RelationView>, filter: RelationFilter) -> Seq<RelationView> {
    records.filter(accepted_by(filter))
}

/// The test for a main record whose key is among `keys`.
pub open spec fn named_by(keys: Seq<UserId>) -> spec_fn(MainRecord) -> bool {
    |main: MainRecord| keys.contains(main.id)
}

/// The main records that the store selects by a list of keys.
pub open spec fn selected_mains(mains: Seq<MainRecord>, keys: Seq<UserId>) -> Seq<MainRecord> {
    mains.filter(named_by(keys))
}

/// Whether the size of each set of each user fits the field that records it.
pub open spec fn sizes_fit(users: Seq<UserView>) -> bool {
    forall|i: int|
        0 <= i < users.len() ==> (#[trigger] users[i]).posted.len() <= u64::MAX
            && users[i].bookmark.len() <= u64::MAX
}

/// Whether no two records share a key.
spec fn distinct_keys(records: Seq<RelationView>) -> bool {
    forall|i: int, j: int|
        0 <= i < records.len() && 0 <= j < records.len() && i != j ==> records[i].id
            != records[j].id
}

proof fn lemma_filter_keeps_all<A>(items: Seq<A>, pred: spec_fn(A) -> bool)
    requires
        forall|i: int| 0 <= i < items.len() ==> pred(#[trigger] items[i]),
    ensures
        items.filter(pred) == items,
    decreases items.len(),
{
    reveal(Seq::filter);
    if items.len() > 0 {
        lemma_filter_keeps_all(items.drop_last(), pred);
        assert(items.drop_last().push(items.last()) =~= items);
    }
}

/// What a filter keeps passes the test and was there; what passes is kept.
proof fn lemma_filter_members<A>(items: Seq<A>, pred: spec_fn(A) -> bool)
    ensures
        forall|j: int|
            0 <= j < items.filter(pred).len() ==> pred(#[trigger] items.filter(pred)[j])
                && items.contains(items.filter(pred)[j]),
        forall|i: int|
            0 <= i < items.len() && pred(items[i]) ==> items.filter(pred).contains(
                #[trigger] items[i],
            ),
    decreases items.len(),
{
    reveal(Seq::filter);
    if items.len() > 0 {
        let rest = items.drop_last();
        let last = items.last();
        let kept = rest.filter(pred);
        let out = items.filter(pred);
        lemma_filter_members(rest, pred);
        assert forall|j: int| 0 <= j < out.len() implies pred(#[trigger] out[j])
            && items.contains(out[j]) by {
            if j < kept.len() {
                assert(out[j] == kept[j]);
                let i = choose|i: int| 0 <= i < rest.len() && rest[i] == kept[j];
                assert(items[i] == kept[j]);
            } else {
                assert(out[j] == last);
                assert(items[items.len() - 1] == last);
            }
        }
        assert forall|i: int| 0 <= i < items.len() && pred(items[i]) implies out.contains(
            #[trigger] items[i],
        ) by {
            if i < rest.len() {
                assert(rest[i] == items[i]);
                assert(kept.contains(rest[i]));
                let j = choose|j: int| 0 <= j < kept.len() && kept[j] == rest[i];
                assert(out[j] == items[i]);
            } else {
                assert(out[out.len() - 1] == items[i]);
            }
        }
    }
}

proof fn lemma_filter_push<A>(items: Seq<A>, item: A, pred: spec_fn(A) -> bool)
    ensures
        items.push(item).filter(pred) == if pred(item) {
            items.filter(pred).push(item)
        } else {
            items.filter(pred)
        },
{
    reveal(Seq::filter);
    assert(items.push(item).drop_last() =~= items);
}

/// Among records none of which has the key, a selection holds the key no time.
proof fn lemma_absent_key_never_selected(
    records: Seq<RelationView>,
    accept: spec_fn(RelationView) -> bool,
    id: UserId,
)
    requires
        forall|i: int| 0 <= i < records.len() ==> (#[trigger] records[i]).id != id,
    ensures
        times_held(records.filter(accept), id) == 0,
    decreases records.len(),
{
    reveal(Seq::filter);
    if records.len() > 0 {
        let rest = records.drop_last();
        assert forall|i: int| 0 <= i < rest.len() implies (#[trigger] rest[i]).id != id by {
            assert(rest[i] == records[i]);
        }
        lemma_absent_key_never_selected(rest, accept, id);
        lemma_filter_push(rest.filter(accept), records.last(), has_key(id));
        assert(records.last() == records[records.len() - 1]);
    }
}

/// Among records with distinct keys, a selection holds the key of a record
/// once if it selects the record, and no time if it does not.
proof fn lemma_times_selected(
    records: Seq<RelationView>,
    accept: spec_fn(RelationView) -> bool,
    n: int,
)
    requires
        distinct_keys(records),
        0 <= n < records.len(),
    ensures
        times_held(records.filter(accept), records[n].id) == if accept(records[n]) {
            1nat
        } else {
            0nat
        },
    decreases records.len(),
{
    reveal(Seq::filter);
    let id = records[n].id;
    let rest = records.drop_last();
    let last = records.last();
    assert(last == records[records.len() - 1]);
    lemma_filter_push(rest.filter(accept), last, has_key(id));
    if n == records.len() - 1 {
        assert forall|i: int| 0 <= i < rest.len() implies (#[trigger] rest[i]).id != id by {
            assert(rest[i] == records[i]);
        }
        lemma_absent_key_never_selected(rest, accept, id);
    } else {
        assert forall|i: int, j: int|
            0 <= i < rest.len() && 0 <= j < rest.len() && i != j implies rest[i].id
            != rest[j].id by {
            assert(rest[i] == records[i] && rest[j] == records[j]);
        }
        assert(rest[n] == records[n]);
        lemma_times_selected(rest, accept, n);
    }
}

/// The first record with a key is the record that alone has it.
proof fn lemma_first_is_the_one(records: Seq<RelationView>, record: RelationView, from: int)
    requires
        0 <= from <= records.len(),
        exists|j: int| from <= j < records.len() && records[j] == record,
        forall|j: int|
            0 <= j < records.len() && (#[trigger] records[j]).id == record.id ==> records[j]
                == record,
    ensures
        first_with(records, record.id, from) == Some(record),
    decreases records.len() - from,
{
    if records[from].id != record.id {
        lemma_first_is_the_one(records, record, from + 1);
    }
}

/// Searching the partitions for a query on bookmarks, joining the keys that
/// both searches give, and putting the users of those keys together gives
/// the users that the query accepts, in the order in which they are held.
///
/// `users` is what the store holds, no two of one key. The filters are those
/// that the two relations are searched by: the one for `posted` selects
/// every record, the one for `bookmark` the records of which the query's
/// predicates hold.
pub proof fn lemma_partitioned_search(
    users: Seq<UserView>,
    query: UserQuery,
    posted_filter: RelationFilter,
    bookmark_filter: RelationFilter,
)
    requires
        unique_keys::<User>(users),
        sizes_fit(users),
        forall|set: Set<u128>, size: nat| #[trigger] posted_filter.accepts(set, size as int),
        forall|set: Set<u128>, size: nat| #[trigger]
            bookmark_filter.accepts(set, size as int) <==> subset_holds(
                ids_view(query.bookmark),
                set,
            ) && count_holds(query.bookmark_num, size),
    ensures
        ({
            let posted = selected(posted_partition(users), posted_filter);
            let bookmark = selected(bookmark_partition(users), bookmark_filter);
            let keys = common_keys(posted, bookmark);
            let mains = selected_mains(main_partition(users), keys);
            assembled(mains, posted, bookmark) == Ok::<Seq<UserView>, Violation>(
                matching_users(users, query),
            )
        }),
{
    let posted = selected(posted_partition(users), posted_filter);
    let bookmark = selected(bookmark_partition(users), bookmark_filter);
    let keys = common_keys(posted, bookmark);
    lemma_search_prefix(users, query, posted_filter, bookmark_filter, users.len() as int);
    assert(users.take(users.len() as int) =~= users);
}

/// The law above, for the first `n` users held.
proof fn lemma_search_prefix(
    users: Seq<UserView>,
    query: UserQuery,
    posted_filter: RelationFilter,
    bookmark_filter: RelationFilter,
    n: int,
)
    requires
        0 <= n <= users.len(),
        unique_keys::<User>(users),
        sizes_fit(users),
        forall|set: Set<u128>, size: nat| #[trigger] posted_filter.accepts(set, size as int),
        forall|set: Set<u128>, size: nat| #[trigger]
            bookmark_filter.accepts(set, size as int) <==> subset_holds(
                ids_view(query.bookmark),
                set,
            ) && count_holds(query.bookmark_num, size),
    ensures
        ({
            let posted = selected(posted_partition(users), posted_filter);
            let bookmark = selected(bookmark_partition(users), bookmark_filter);
            let keys = common_keys(posted, bookmark);
            let mains = selected_mains(main_partition(users.take(n)), keys);
            assembled(mains, posted, bookmark) == Ok::<Seq<UserView>, Violation>(
                matching_users(users.take(n), query),
            )
        }),
    decreases n,
{
    reveal(Seq::filter);
    let all_posted = posted_partition(users);
    let all_bookmark = bookmark_partition(users);
    let posted = selected(all_posted, posted_filter);
    let bookmark = selected(all_bookmark, bookmark_filter);
    let keys = common_keys(posted, bookmark);
    if n == 0 {
        assert(users.take(0) =~= Seq::<UserView>::empty());
        assert(main_partition(users.take(0)) =~= Seq::<MainRecord>::empty());
    } else {
        lemma_search_prefix(users, query, posted_filter, bookmark_filter, n - 1);
        let user = users[n - 1];
        let main = MainRecord { id: user.id, admin: user.admin, sub_admin: user.sub_admin };
        let before = users.take(n - 1);
        let upto = users.take(n);
        assert(upto.drop_last() =~= before);
        assert(upto.last() == user);
        assert(main_partition(upto).drop_last() =~= main_partition(before));
        assert(main_partition(upto).last() == main);

        // The search of `posted` selects every record.
        assert forall|i: int| 0 <= i < all_posted.len() implies accepted_by(posted_filter)(
            #[trigger] all_posted[i],
        ) by {
            assert(posted_filter.accepts(all_posted[i].set, all_posted[i].size as nat as int));
        }
        lemma_filter_keeps_all(all_posted, accepted_by(posted_filter));
        assert(posted == all_posted);

        // The search of `bookmark` selects the record of a user exactly if the
        // query accepts the user.
        let record = all_bookmark[n - 1];
        assert(record.size as nat == user.bookmark.len());
        assert(accepted_by(bookmark_filter)(record) == bookmark_filter.accepts(
            user.bookmark,
            user.bookmark.len() as int,
        ));
        assert(accepted_by(bookmark_filter)(record) == query.accepts(user));
        assert(distinct_keys(all_bookmark)) by {
            assert forall|i: int, j: int|
                0 <= i < all_bookmark.len() && 0 <= j < all_bookmark.len() && i
                    != j implies all_bookmark[i].id != all_bookmark[j].id by {
                assert(User::key_of(users[i]) != User::key_of(users[j]));
            }
        }
        lemma_times_selected(all_bookmark, accepted_by(bookmark_filter), n - 1);
        assert(times_held(bookmark, user.id) == if query.accepts(user) {
            1nat
        } else {
            0nat
        });

        // So the user's key is among the common keys exactly if the query
        // accepts the user.
        let once = posted.filter(held_once_in(bookmark));
        lemma_filter_members(posted, held_once_in(bookmark));
        assert(keys.contains(user.id) == query.accepts(user)) by {
            if query.accepts(user) {
                assert(held_once_in(bookmark)(posted[n - 1]));
                assert(once.contains(posted[n - 1]));
                let j = choose|j: int| 0 <= j < once.len() && once[j] == posted[n - 1];
                assert(keys[j] == user.id);
            }
            if keys.contains(user.id) {
                let j = choose|j: int| 0 <= j < keys.len() && keys[j] == user.id;
                assert(keys[j] == once[j].id);
                assert(held_once_in(bookmark)(once[j]));
            }
        }
        assert(named_by(keys)(main) == query.accepts(user));

        if query.accepts(user) {
            // Its records are the first of its key in both selections.
            assert(distinct_keys(all_posted)) by {
                assert forall|i: int, j: int|
                    0 <= i < all_posted.len() && 0 <= j < all_posted.len() && i
                        != j implies all_posted[i].id != all_posted[j].id by {
                    assert(User::key_of(users[i]) != User::key_of(users[j]));
                }
            }
            assert(posted[n - 1] == all_posted[n - 1]);
            lemma_first_is_the_one(posted, all_posted[n - 1], 0);
            lemma_filter_members(all_bookmark, accepted_by(bookmark_filter));
            assert(bookmark.contains(record));
            assert forall|j: int|
                0 <= j < bookmark.len() && (#[trigger] bookmark[j]).id == record.id implies bookmark[j]
                == record by {
                assert(all_bookmark.contains(bookmark[j]));
                let i = choose|i: int| 0 <= i < all_bookmark.len() && all_bookmark[i] == bookmark[j];
                assert(i == n - 1);
            }
            lemma_first_is_the_one(bookmark, record, 0);
            assert(joined(main, user.posted, user.bookmark) == user);
            assert(assembled_one(main, posted, bookmark) == Ok::<UserView, Violation>(user));
        }
        let mains_before = selected_mains(main_partition(before), keys);
        let mains_upto = selected_mains(main_partition(upto), keys);
        lemma_filter_push(main_partition(before), main, named_by(keys));
        assert(main_partition(upto) =~= main_partition(before).push(main));
        lemma_filter_push(before, user, |user: UserView| query.accepts(user));
        assert(upto =~= before.push(user));
        if query.accepts(user) {
            assert(mains_upto == mains_before.push(main));
            assert(mains_upto.drop_last() =~= mains_before);
            assert(mains_upto.last() == main);
            assert(matching_users(upto, query) == matching_users(before, query).push(user));
        } else {
            assert(mains_upto == mains_before);
            assert(matching_users(upto, query) == matching_users(before, query));
        }
    }
}

} // verus!
