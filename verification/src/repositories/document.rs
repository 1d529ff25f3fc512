//! The document-store backend keeps a user in three partitions: a main record,
//! and one record for each of the sets `posted` and `bookmark`. Nothing makes a
//! write to all three atomic, so every answer is put together from three, and
//! the three may disagree. This module holds what the backend decides; reading
//! and writing the partitions is left to the caller.

use crate::entities::{ContentId, User, UserId, UserView};
use crate::mutation::UserMutation;
use crate::query::{count_holds, ids_view, subset_holds, UserQuery};
use crate::range::{in_range, Bound};
use crate::repositories::RepositoryError;
use crate::sets::{clone_set, to_list};
use std::collections::HashSet;
use vstd::prelude::*;

verus! {

broadcast use vstd::std_specs::hash::group_hash_axioms;

/// A state of the partitions that no operation of the contract leaves behind.
/// It is no answer of the contract: the caller treats it as fatal.
#[derive(Clone, Copy, Debug, PartialEq, Eq, Structural)]
pub enum Violation {
    /// The partitions disagree on whether a user is there. Each field says
    /// whether one partition holds the user's record or, after an insertion,
    /// whether it wrote the record.
    Diverged { main: bool, posted: bool, bookmark: bool },
    /// A partition holds, or has changed, more than one record for one key.
    NotUnique { count: u64 },
    /// A partition gave a record of another user than the one asked for.
    WrongKey { asked: UserId, given: UserId },
}

/// An answer of the contract, or the violation that stands in its way.
pub type Checked<T> = Result<Result<T, RepositoryError>, Violation>;

/// The main record of a user.
#[derive(Clone, Copy, Debug, PartialEq, Eq, Structural)]
pub struct MainRecord {
    pub id: UserId,
    pub admin: bool,
    pub sub_admin: bool,
}

/// The record of one set of a user, with the size of the set beside it: the
/// number that the size tests of the store go by.
#[derive(Debug)]
pub struct RelationRecord {
    pub id: UserId,
    pub set: HashSet<ContentId>,
    pub size: u64,
}

/// A relation record as a mathematical value.
pub struct RelationView {
    pub id: UserId,
    pub set: Set<ContentId>,
    pub size: u64,
}

impl View for RelationRecord {
    type V = RelationView;

    open spec fn view(&self) -> RelationView {
        RelationView { id: self.id, set: self.set@, size: self.size }
    }
}

/// The user that three records of one identity make up.
pub open spec fn joined(main: MainRecord, posted: Set<ContentId>, bookmark: Set<ContentId>) -> UserView {
    UserView { id: main.id, admin: main.admin, sub_admin: main.sub_admin, posted, bookmark }
}

/// Splits a user into the records of the three partitions.
pub fn split_user(user: User) -> (records: (MainRecord, RelationRecord, RelationRecord))
    ensures
        records.0 == (MainRecord { id: user.id, admin: user.admin, sub_admin: user.sub_admin }),
        records.1@ == (RelationView {
            id: user.id,
            set: user@.posted,
            size: user@.posted.len() as u64,
        }),
        records.2@ == (RelationView {
            id: user.id,
            set: user@.bookmark,
            size: user@.bookmark.len() as u64,
        }),
        joined(records.0, records.1@.set, records.2@.set) == user@,
{
    let main = MainRecord { id: user.id, admin: user.admin, sub_admin: user.sub_admin };
    let posted_size: u64 = user.posted.len() as u64;
    let bookmark_size: u64 = user.bookmark.len() as u64;
    let posted = RelationRecord { id: user.id, set: user.posted, size: posted_size };
    let bookmark = RelationRecord { id: user.id, set: user.bookmark, size: bookmark_size };
    (main, posted, bookmark)
}

/// What a count of records with one key says: no record, or one. A count
/// above one is a violation.
pub open spec fn presence_of(count: u64) -> Result<bool, Violation> {
    if count == 0 {
        Ok(false)
    } else if count == 1 {
        Ok(true)
    } else {
        Err(Violation::NotUnique { count })
    }
}

/// What the three partitions say together: the user is there if all three
/// hold it, not there if none does. Anything else is a divergence.
pub open spec fn agreement_of(main: bool, posted: bool, bookmark: bool) -> Result<bool, Violation> {
    if main && posted && bookmark {
        Ok(true)
    } else if !main && !posted && !bookmark {
        Ok(false)
    } else {
        Err(Violation::Diverged { main, posted, bookmark })
    }
}

/// What three counts of records with one key, one from each partition, say
/// together. The first count above one decides, in the order main, posted,
/// bookmark.
pub open spec fn counts_agreement(main: u64, posted: u64, bookmark: u64) -> Result<
    bool,
    Violation,
> {
    match presence_of(main) {
        Err(v) => Err(v),
        Ok(m) => match presence_of(posted) {
            Err(v) => Err(v),
            Ok(p) => match presence_of(bookmark) {
                Err(v) => Err(v),
                Ok(b) => agreement_of(m, p, b),
            },
        },
    }
}

/// Reads a count of records with one key.
pub fn presence(count: u64) -> (r: Result<bool, Violation>)
    ensures
        r == presence_of(count),
{
    if count == 0 {
        Ok(false)
    } else if count == 1 {
        Ok(true)
    } else {
        Err(Violation::NotUnique { count })
    }
}

/// Puts the answers of the three partitions together.
pub fn agreement(main: bool, posted: bool, bookmark: bool) -> (r: Result<bool, Violation>)
    ensures
        r == agreement_of(main, posted, bookmark),
{
    if main && posted && bookmark {
        Ok(true)
    } else if !main && !posted && !bookmark {
        Ok(false)
    } else {
        Err(Violation::Diverged { main, posted, bookmark })
    }
}

fn counts(main: u64, posted: u64, bookmark: u64) -> (r: Result<bool, Violation>)
    ensures
        r == counts_agreement(main, posted, bookmark),
{
    let m = match presence(main) {
        Ok(m) => m,
        Err(v) => { return Err(v); },
    };
    let p = match presence(posted) {
        Ok(p) => p,
        Err(v) => { return Err(v); },
    };
    let b = match presence(bookmark) {
        Ok(b) => b,
        Err(v) => { return Err(v); },
    };
    agreement(m, p, b)
}

/// Whether a user is held, from the number of records with its key in each
/// partition.
pub fn exists_answer(main: u64, posted: u64, bookmark: u64) -> (r: Checked<bool>)
    ensures
        r == match counts_agreement(main, posted, bookmark) {
            Ok(there) => Ok::<Result<bool, RepositoryError>, Violation>(Ok(there)),
            Err(v) => Err::<Result<bool, RepositoryError>, Violation>(v),
        },
{
    match counts(main, posted, bookmark) {
        Ok(there) => Ok(Ok(there)),
        Err(v) => Err(v),
    }
}

/// The view of an optional relation record.
pub open spec fn relation_view(record: Option<RelationRecord>) -> Option<RelationView> {
    match record {
        Some(r) => Some(r@),
        None => None,
    }
}

/// The view of an answer that holds a user.
pub open spec fn checked_user_view(answer: Checked<User>) -> Result<
    Result<UserView, RepositoryError>,
    Violation,
> {
    match answer {
        Ok(Ok(user)) => Ok(Ok(user@)),
        Ok(Err(e)) => Ok(Err(e)),
        Err(v) => Err(v),
    }
}

/// The user with the key `id`, from what each partition holds under that key.
/// Three records make the user; none at all is `NotFound`; some but not all is
/// a divergence; a record under another key is a violation, the main record's
/// being judged first, then that of `posted`.
pub open spec fn found_of(
    id: UserId,
    main: Option<MainRecord>,
    posted: Option<RelationView>,
    bookmark: Option<RelationView>,
) -> Result<Result<UserView, RepositoryError>, Violation> {
    match (main, posted, bookmark) {
        (Some(m), Some(p), Some(b)) => {
            if m.id != id {
                Err(Violation::WrongKey { asked: id, given: m.id })
            } else if p.id != id {
                Err(Violation::WrongKey { asked: id, given: p.id })
            } else if b.id != id {
                Err(Violation::WrongKey { asked: id, given: b.id })
            } else {
                Ok(Ok(joined(m, p.set, b.set)))
            }
        },
        (None, None, None) => Ok(Err(RepositoryError::NotFound)),
        _ => Err(
            Violation::Diverged {
                main: main is Some,
                posted: posted is Some,
                bookmark: bookmark is Some,
            },
        ),
    }
}

/// Puts the user with the key `id` together from what the partitions hold.
pub fn find_answer(
    id: UserId,
    main: Option<MainRecord>,
    posted: Option<RelationRecord>,
    bookmark: Option<RelationRecord>,
) -> (r: Checked<User>)
    ensures
        checked_user_view(r) == found_of(id, main, relation_view(posted), relation_view(bookmark)),
{
    match (main, posted, bookmark) {
        (Some(m), Some(p), Some(b)) => {
            if m.id != id {
                Err(Violation::WrongKey { asked: id, given: m.id })
            } else if p.id != id {
                Err(Violation::WrongKey { asked: id, given: p.id })
            } else if b.id != id {
                Err(Violation::WrongKey { asked: id, given: b.id })
            } else {
                Ok(
                    Ok(
                        User {
                            id: m.id,
                            admin: m.admin,
                            sub_admin: m.sub_admin,
                            posted: p.set,
                            bookmark: b.set,
                        },
                    ),
                )
            }
        },
        (None, None, None) => Ok(Err(RepositoryError::NotFound)),
        (m, p, b) => Err(
            Violation::Diverged {
                main: m.is_some(),
                posted: p.is_some(),
                bookmark: b.is_some(),
            },
        ),
    }
}

/// What deleting a user answers. `found` is what `find` answered before the
/// deletion, and the counts say how many records each partition deleted.
pub open spec fn deleted_of(
    found: Result<UserView, RepositoryError>,
    main: u64,
    posted: u64,
    bookmark: u64,
) -> Result<Result<UserView, RepositoryError>, Violation> {
    match found {
        Err(e) => Ok(Err(e)),
        Ok(user) => match counts_agreement(main, posted, bookmark) {
            Ok(true) => Ok(Ok(user)),
            Ok(false) => Ok(Err(RepositoryError::NotFound)),
            Err(v) => Err(v),
        },
    }
}

/// The answer of a deletion: the user as it was found, if every partition
/// deleted its record.
pub fn delete_answer(found: Result<User, RepositoryError>, main: u64, posted: u64, bookmark: u64) -> (r:
    Checked<User>)
    ensures
        checked_user_view(r) == deleted_of(
            crate::repositories::answer_view(found),
            main,
            posted,
            bookmark,
        ),
{
    match found {
        Err(e) => Ok(Err(e)),
        Ok(user) => match counts(main, posted, bookmark) {
            Ok(true) => Ok(Ok(user)),
            Ok(false) => Ok(Err(RepositoryError::NotFound)),
            Err(v) => Err(v),
        },
    }
}

/// What a change of one record answers, from how many records the store
/// matched and how many it changed: no match is `NotFound`; else the answer
/// says whether the record changed.
pub open spec fn changed_of(matched: u64, modified: u64) -> Result<
    Result<bool, RepositoryError>,
    Violation,
> {
    match presence_of(matched) {
        Err(v) => Err(v),
        Ok(false) => Ok(Err(RepositoryError::NotFound)),
        Ok(true) => match presence_of(modified) {
            Err(v) => Err(v),
            Ok(changed) => Ok(Ok(changed)),
        },
    }
}

/// The answer of adding to, or removing from, a set of one record.
pub fn toggle_answer(matched: u64, modified: u64) -> (r: Checked<bool>)
    ensures
        r == changed_of(matched, modified),
{
    match presence(matched) {
        Err(v) => Err(v),
        Ok(false) => Ok(Err(RepositoryError::NotFound)),
        Ok(true) => match presence(modified) {
            Err(v) => Err(v),
            Ok(changed) => Ok(Ok(changed)),
        },
    }
}

/// The answer of an update of the main record, before the user is read again:
/// no match is `NotFound`.
pub fn update_answer(matched: u64) -> (r: Checked<()>)
    ensures
        r == match presence_of(matched) {
            Err(v) => Err::<Result<(), RepositoryError>, Violation>(v),
            Ok(false) => Ok(Err(RepositoryError::NotFound)),
            Ok(true) => Ok(Ok(())),
        },
{
    match presence(matched) {
        Err(v) => Err(v),
        Ok(false) => Ok(Err(RepositoryError::NotFound)),
        Ok(true) => Ok(Ok(())),
    }
}

/// A field of the main record that an update sets.
#[derive(Clone, Copy, Debug, PartialEq, Eq, Structural)]
pub enum MainField {
    Admin,
    SubAdmin,
}

/// The fields that a mutation sets, with their new values: `admin` first.
pub open spec fn assignments_of(mutation: UserMutation) -> Seq<(MainField, bool)> {
    let admin = match mutation.admin {
        Some(v) => seq![(MainField::Admin, v)],
        None => Seq::empty(),
    };
    let sub_admin = match mutation.sub_admin {
        Some(v) => seq![(MainField::SubAdmin, v)],
        None => Seq::empty(),
    };
    admin + sub_admin
}

/// Lists what an update has to set in the main record.
pub fn update_assignments(mutation: &UserMutation) -> (fields: Vec<(MainField, bool)>)
    ensures
        fields@ == assignments_of(*mutation),
{
    let mut fields: Vec<(MainField, bool)> = Vec::new();
    if let Some(v) = mutation.admin {
        fields.push((MainField::Admin, v));
    }
    if let Some(v) = mutation.sub_admin {
        fields.push((MainField::SubAdmin, v));
    }
    assert(fields@ =~= assignments_of(*mutation));
    fields
}

/// The code by which the store reports a write that would give a second
/// record to a unique key.
pub const DUPLICATE_KEY: i32 = 11000;

/// Why the store refused a write: the code of the write error if it gave one,
/// and what it said.
#[derive(Debug)]
pub struct WriteFault {
    pub code: Option<i32>,
    pub message: String,
}

/// What an insertion answers, from how the write ended: `true` if the record
/// was written, `false` if the store refused it as a duplicate; any other
/// fault is a failure of the backend.
pub fn unique_check(write: Result<(), WriteFault>) -> (r: Result<bool, RepositoryError>)
    ensures
        r == match write {
            Ok(_) => Ok::<bool, RepositoryError>(true),
            Err(fault) => if fault.code == Some(DUPLICATE_KEY) {
                Ok::<bool, RepositoryError>(false)
            } else {
                Err::<bool, RepositoryError>(RepositoryError::Internal(fault.message))
            },
        },
{
    match write {
        Ok(_) => Ok(true),
        Err(fault) => {
            let duplicate = match fault.code {
                Some(code) => code == DUPLICATE_KEY,
                None => false,
            };
            if duplicate {
                Ok(false)
            } else {
                Err(RepositoryError::Internal(fault.message))
            }
        },
    }
}

/// Whether a partition answered that it wrote its record.
pub open spec fn wrote(answer: Result<bool, RepositoryError>) -> bool {
    answer matches Ok(true)
}

/// What an insertion into all three partitions answers: `true` if each wrote
/// its record, `false` if each refused it as a duplicate. Where a partition
/// failed and none wrote, the failure is passed on, that of the main
/// partition first. Every other outcome leaves the user in some partitions
/// and not in others, and is a divergence, whose fields say which partitions
/// wrote.
pub open spec fn inserted_of(
    main: Result<bool, RepositoryError>,
    posted: Result<bool, RepositoryError>,
    bookmark: Result<bool, RepositoryError>,
) -> Result<Result<bool, RepositoryError>, Violation> {
    let failed = main is Err || posted is Err || bookmark is Err;
    let written = wrote(main) || wrote(posted) || wrote(bookmark);
    if failed && written {
        Err(
            Violation::Diverged {
                main: wrote(main),
                posted: wrote(posted),
                bookmark: wrote(bookmark),
            },
        )
    } else {
        match (main, posted, bookmark) {
            (Ok(m), Ok(p), Ok(b)) => match agreement_of(m, p, b) {
                Ok(written) => Ok(Ok(written)),
                Err(v) => Err(v),
            },
            (Err(e), _, _) => Ok(Err(e)),
            (_, Err(e), _) => Ok(Err(e)),
            (_, _, Err(e)) => Ok(Err(e)),
        }
    }
}

fn has_written(answer: &Result<bool, RepositoryError>) -> (r: bool)
    ensures
        r == wrote(*answer),
{
    match answer {
        Ok(written) => *written,
        Err(_) => false,
    }
}

/// The answer of an insertion, from the answers of the three partitions.
pub fn insert_answer(
    main: Result<bool, RepositoryError>,
    posted: Result<bool, RepositoryError>,
    bookmark: Result<bool, RepositoryError>,
) -> (r: Checked<bool>)
    ensures
        r == inserted_of(main, posted, bookmark),
{
    let failed = main.is_err() || posted.is_err() || bookmark.is_err();
    let m = has_written(&main);
    let p = has_written(&posted);
    let b = has_written(&bookmark);
    if failed && (m || p || b) {
        return Err(Violation::Diverged { main: m, posted: p, bookmark: b });
    }
    match (main, posted, bookmark) {
        (Ok(m), Ok(p), Ok(b)) => match agreement(m, p, b) {
            Ok(written) => Ok(Ok(written)),
            Err(v) => Err(v),
        },
        (Err(e), _, _) => Ok(Err(e)),
        (_, Err(e), _) => Ok(Err(e)),
        (_, _, Err(e)) => Ok(Err(e)),
    }
}

/// A test on the size of a set, as the store can run it.
#[derive(Clone, Copy, Debug, PartialEq, Eq, Structural)]
pub enum SizeTest {
    AtLeast(u32),
    MoreThan(u32),
    AtMost(u32),
    LessThan(u32),
}

impl SizeTest {
    /// Whether a set of `size` members passes.
    pub open spec fn holds(self, size: int) -> bool {
        match self {
            SizeTest::AtLeast(n) => n <= size,
            SizeTest::MoreThan(n) => n < size,
            SizeTest::AtMost(n) => size <= n,
            SizeTest::LessThan(n) => size < n,
        }
    }
}

/// The size tests that stand for a range: that of the lower end first. An end
/// without bound needs none.
pub open spec fn size_tests_of(range: Option<(Bound, Bound)>) -> Seq<SizeTest> {
    match range {
        None => Seq::empty(),
        Some((lower, upper)) => {
            let low = match lower {
                Bound::Included(n) => seq![SizeTest::AtLeast(n)],
                Bound::Excluded(n) => seq![SizeTest::MoreThan(n)],
                Bound::Unbounded => Seq::empty(),
            };
            let high = match upper {
                Bound::Included(n) => seq![SizeTest::AtMost(n)],
                Bound::Excluded(n) => seq![SizeTest::LessThan(n)],
                Bound::Unbounded => Seq::empty(),
            };
            low + high
        },
    }
}

/// What to select the records of one relation by: members that the set must
/// hold, all of them, and tests on its size.
#[derive(Debug)]
pub struct RelationFilter {
    pub contains_all: Option<Vec<ContentId>>,
    pub size: Vec<SizeTest>,
}

impl RelationFilter {
    /// Whether the filter selects a record with this set and this size.
    pub open spec fn accepts(&self, set: Set<ContentId>, size: int) -> bool {
        &&& match self.contains_all {
            Some(ids) => forall|i: int| 0 <= i < ids@.len() ==> set.contains(#[trigger] ids@[i]),
            None => true,
        }
        &&& forall|j: int| 0 <= j < self.size@.len() ==> (#[trigger] self.size@[j]).holds(size)
    }
}

/// Turns the two predicates that a query holds on one relation into a filter
/// for the relation's partition. The filter selects the records, and only
/// those, of which both predicates hold.
pub fn relation_filter(ids: &Option<HashSet<ContentId>>, num: &Option<(Bound, Bound)>) -> (filter:
    RelationFilter)
    ensures
        forall|set: Set<ContentId>, size: nat| #[trigger]
            filter.accepts(set, size as int) <==> subset_holds(ids_view(*ids), set) && count_holds(
                *num,
                size,
            ),
        filter.contains_all is Some <==> ids is Some && !ids->Some_0@.is_empty(),
        filter.size@ == size_tests_of(*num),
{
    let contains_all = match ids {
        Some(set) => if set.is_empty() {
            None
        } else {
            Some(to_list(set))
        },
        None => None,
    };
    let mut size: Vec<SizeTest> = Vec::new();
    if let Some((lower, upper)) = num {
        match lower {
            Bound::Included(n) => size.push(SizeTest::AtLeast(*n)),
            Bound::Excluded(n) => size.push(SizeTest::MoreThan(*n)),
            Bound::Unbounded => {},
        }
        match upper {
            Bound::Included(n) => size.push(SizeTest::AtMost(*n)),
            Bound::Excluded(n) => size.push(SizeTest::LessThan(*n)),
            Bound::Unbounded => {},
        }
    }
    let filter = RelationFilter { contains_all, size };
    proof {
        assert(filter.size@ =~= size_tests_of(*num));
        assert forall|set: Set<ContentId>, size: nat| #[trigger]
            filter.accepts(set, size as int) <==> subset_holds(ids_view(*ids), set) && count_holds(
                *num,
                size,
            ) by {
            lemma_size_tests(*num, size as int);
            match filter.contains_all {
                Some(list) => {
                    let wanted = ids->Some_0@;
                    assert(list@.to_set() == wanted);
                    if wanted.subset_of(set) {
                        assert forall|i: int| 0 <= i < list@.len() implies set.contains(
                            #[trigger] list@[i],
                        ) by {
                            assert(list@.to_set().contains(list@[i]));
                        }
                    }
                    if forall|i: int| 0 <= i < list@.len() ==> set.contains(#[trigger] list@[i]) {
                        assert forall|x: ContentId| wanted.contains(x) implies set.contains(x) by {
                            assert(list@.contains(x));
                        }
                    }
                },
                None => {
                    if ids is Some {
                        assert(ids->Some_0@ =~= Set::<ContentId>::empty());
                    }
                },
            }
        }
    }
    filter
}

/// The filters by which a query on users searches the two relations: that for
/// `posted` first. The query holds no predicate on `posted`, so its filter
/// selects every record; that for `bookmark` selects the records of which the
/// query's predicates hold.
pub fn search_filters(query: &UserQuery) -> (filters: (RelationFilter, RelationFilter))
    ensures
        forall|set: Set<ContentId>, size: nat| #[trigger] filters.0.accepts(set, size as int),
        forall|set: Set<ContentId>, size: nat| #[trigger]
            filters.1.accepts(set, size as int) <==> subset_holds(ids_view(query.bookmark), set)
                && count_holds(query.bookmark_num, size),
{
    let posted = relation_filter(&None, &None);
    let bookmark = relation_filter(&query.bookmark, &query.bookmark_num);
    (posted, bookmark)
}

/// The size tests of a range hold of the sizes that lie within the range.
proof fn lemma_size_tests(range: Option<(Bound, Bound)>, size: int)
    ensures
        (forall|j: int|
            0 <= j < size_tests_of(range).len() ==> (#[trigger] size_tests_of(range)[j]).holds(size))
            <==> match range {
            Some(r) => in_range(r, size),
            None => true,
        },
{
    match range {
        None => {},
        Some((lower, upper)) => {
            let tests = size_tests_of(range);
            if forall|j: int| 0 <= j < tests.len() ==> (#[trigger] tests[j]).holds(size) {
                if !(lower is Unbounded) {
                    assert(tests[0].holds(size));
                }
                if !(upper is Unbounded) {
                    assert(tests[tests.len() - 1].holds(size));
                }
            }
        },
    }
}

/// The views of relation records, in the same order.
pub open spec fn relation_views(records: Seq<RelationRecord>) -> Seq<RelationView> {
    records.map_values(|record: RelationRecord| record@)
}

/// The test for the key `id`.
pub open spec fn has_key(id: UserId) -> spec_fn(RelationView) -> bool {
    |record: RelationView| record.id == id
}

/// How many of the records have the key `id`.
pub open spec fn times_held(records: Seq<RelationView>, id: UserId) -> nat {
    records.filter(has_key(id)).len()
}

/// The test for a key that `bookmark` holds exactly once.
pub open spec fn held_once_in(bookmark: Seq<RelationView>) -> spec_fn(RelationView) -> bool {
    |record: RelationView| times_held(bookmark, record.id) == 1
}

/// The keys of the records of `posted` for which `bookmark` holds exactly one
/// record, in the order of `posted`.
pub open spec fn common_keys(posted: Seq<RelationView>, bookmark: Seq<RelationView>) -> Seq<UserId> {
    posted.filter(held_once_in(bookmark)).map_values(|record: RelationView| record.id)
}

fn count_key(records: &Vec<RelationRecord>, id: UserId) -> (count: usize)
    ensures
        count == times_held(relation_views(records@), id),
{
    let ghost all = relation_views(records@);
    let mut count: usize = 0;
    let mut k: usize = 0;
    proof {
        reveal(Seq::filter);
        assert(all.take(0) =~= Seq::<RelationView>::empty());
    }
    while k < records.len()
        invariant
            k <= records.len(),
            all == relation_views(records@),
            count == times_held(all.take(k as int), id),
            count <= k,
        decreases records.len() - k,
    {
        proof {
            reveal(Seq::filter);
            assert(all.take(k + 1).drop_last() =~= all.take(k as int));
            assert(all.take(k + 1).last() == records[k as int]@);
        }
        if records[k].id == id {
            count += 1;
        }
        k += 1;
    }
    proof {
        assert(all.take(k as int) =~= all);
    }
    count
}

/// The users that both relation queries selected: the keys of the records
/// that `posted` holds and `bookmark` holds once.
pub fn intersect_by_key(posted: &Vec<RelationRecord>, bookmark: &Vec<RelationRecord>) -> (keys: Vec<
    UserId,
>)
    ensures
        keys@ == common_keys(relation_views(posted@), relation_views(bookmark@)),
{
    let ghost all = relation_views(posted@);
    let ghost others = relation_views(bookmark@);
    let mut keys: Vec<UserId> = Vec::new();
    let mut k: usize = 0;
    proof {
        reveal(Seq::filter);
        assert(all.take(0) =~= Seq::<RelationView>::empty());
        assert(keys@ =~= common_keys(all.take(0), others));
    }
    while k < posted.len()
        invariant
            k <= posted.len(),
            all == relation_views(posted@),
            others == relation_views(bookmark@),
            keys@ == common_keys(all.take(k as int), others),
        decreases posted.len() - k,
    {
        let id = posted[k].id;
        let hits = count_key(bookmark, id);
        proof {
            reveal(Seq::filter);
            assert(all.take(k + 1).drop_last() =~= all.take(k as int));
            assert(all.take(k + 1).last() == posted[k as int]@);
            if hits == 1 {
                assert(common_keys(all.take(k + 1), others) =~= keys@.push(id));
            } else {
                assert(common_keys(all.take(k + 1), others) =~= keys@);
            }
        }
        if hits == 1 {
            keys.push(id);
        }
        k += 1;
    }
    proof {
        assert(all.take(k as int) =~= all);
    }
    keys
}

/// The first record at or after `from` that has the key `id`.
pub open spec fn first_with(records: Seq<RelationView>, id: UserId, from: int) -> Option<RelationView>
    decreases records.len() - from,
{
    if from < 0 || from >= records.len() {
        None
    } else if records[from].id == id {
        Some(records[from])
    } else {
        first_with(records, id, from + 1)
    }
}

/// The user that a main record makes with the first record of its key in each
/// of the two relations. A relation without such a record is a divergence.
pub open spec fn assembled_one(
    main: MainRecord,
    posted: Seq<RelationView>,
    bookmark: Seq<RelationView>,
) -> Result<UserView, Violation> {
    match (first_with(posted, main.id, 0), first_with(bookmark, main.id, 0)) {
        (Some(p), Some(b)) => Ok(joined(main, p.set, b.set)),
        (p, b) => Err(Violation::Diverged { main: true, posted: p is Some, bookmark: b is Some }),
    }
}

/// The users that the main records make, in their order. The first main
/// record that cannot be completed decides.
pub open spec fn assembled(
    mains: Seq<MainRecord>,
    posted: Seq<RelationView>,
    bookmark: Seq<RelationView>,
) -> Result<Seq<UserView>, Violation>
    decreases mains.len(),
{
    if mains.len() == 0 {
        Ok(Seq::empty())
    } else {
        match assembled(mains.drop_last(), posted, bookmark) {
            Err(v) => Err(v),
            Ok(users) => match assembled_one(mains.last(), posted, bookmark) {
                Ok(user) => Ok(users.push(user)),
                Err(v) => Err(v),
            },
        }
    }
}

fn find_first(records: &Vec<RelationRecord>, id: UserId) -> (found: Option<usize>)
    ensures
        match found {
            Some(i) => i < records.len() && first_with(relation_views(records@), id, 0) == Some(
                records[i as int]@,
            ),
            None => first_with(relation_views(records@), id, 0) is None,
        },
{
    let ghost all = relation_views(records@);
    let mut k: usize = 0;
    while k < records.len()
        invariant
            k <= records.len(),
            all == relation_views(records@),
            first_with(all, id, k as int) == first_with(all, id, 0),
        decreases records.len() - k,
    {
        if records[k].id == id {
            return Some(k);
        }
        k += 1;
    }
    None
}

/// The views of the users of an answer.
pub open spec fn users_view(answer: Result<Vec<User>, Violation>) -> Result<Seq<UserView>, Violation> {
    match answer {
        Ok(users) => Ok(crate::repositories::views(users@)),
        Err(v) => Err(v),
    }
}

/// Puts the users together whose main records the store selected, each from
/// its main record and its two relation records.
pub fn assemble_users(
    mains: &Vec<MainRecord>,
    posted: &Vec<RelationRecord>,
    bookmark: &Vec<RelationRecord>,
) -> (r: Result<Vec<User>, Violation>)
    ensures
        users_view(r) == assembled(mains@, relation_views(posted@), relation_views(bookmark@)),
{
    let ghost p_all = relation_views(posted@);
    let ghost b_all = relation_views(bookmark@);
    let mut users: Vec<User> = Vec::new();
    let mut k: usize = 0;
    proof {
        assert(mains@.take(0) =~= Seq::<MainRecord>::empty());
        assert(crate::repositories::views(users@) =~= Seq::<UserView>::empty());
    }
    while k < mains.len()
        invariant
            k <= mains.len(),
            p_all == relation_views(posted@),
            b_all == relation_views(bookmark@),
            assembled(mains@.take(k as int), p_all, b_all) == Ok::<Seq<UserView>, Violation>(
                crate::repositories::views(users@),
            ),
        decreases mains.len() - k,
    {
        let main = mains[k];
        let p = find_first(posted, main.id);
        let b = find_first(bookmark, main.id);
        proof {
            assert(mains@.take(k + 1).drop_last() =~= mains@.take(k as int));
            assert(mains@.take(k + 1).last() == main);
        }
        match (p, b) {
            (Some(i), Some(j)) => {
                let user = User {
                    id: main.id,
                    admin: main.admin,
                    sub_admin: main.sub_admin,
                    posted: clone_set(&posted[i].set),
                    bookmark: clone_set(&bookmark[j].set),
                };
                proof {
                    assert(crate::repositories::views(users@.push(user))
                        =~= crate::repositories::views(users@).push(user@));
                }
                users.push(user);
            },
            (p, b) => {
                proof {
                    lemma_assembled_fails_later(mains@, k + 1, p_all, b_all);
                    assert(mains@.take(mains@.len() as int) =~= mains@);
                }
                return Err(
                    Violation::Diverged {
                        main: true,
                        posted: p.is_some(),
                        bookmark: b.is_some(),
                    },
                );
            },
        }
        k += 1;
    }
    proof {
        assert(mains@.take(k as int) =~= mains@);
    }
    Ok(users)
}

/// A violation among the first `n` main records is the violation of the whole.
proof fn lemma_assembled_fails_later(
    mains: Seq<MainRecord>,
    n: int,
    posted: Seq<RelationView>,
    bookmark: Seq<RelationView>,
)
    requires
        0 <= n <= mains.len(),
        assembled(mains.take(n), posted, bookmark) is Err,
    ensures
        assembled(mains, posted, bookmark) == assembled(mains.take(n), posted, bookmark),
    decreases mains.len() - n,
{
    if n < mains.len() {
        assert(mains.take(n + 1).drop_last() =~= mains.take(n));
        lemma_assembled_fails_later(mains, n + 1, posted, bookmark);
    } else {
        assert(mains.take(n) =~= mains);
    }
}

} // verus!
