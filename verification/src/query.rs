//! Queries: for each kind of record, a set of optional predicates. A record
//! matches when every predicate that is present holds of it.

use crate::entities::{Author, Content, ContentId, Posted, User, UserId};
use crate::entities::{AuthorView, ContentView, PostedView, UserView};
use crate::pattern::{clone_pattern, is_match, regex_is_match};
use crate::range::{count_in_range, in_range, Bound};
use crate::sets::{clone_set, is_subset};
use regex::Regex;
use std::collections::HashSet;
use vstd::prelude::*;

verus! {

broadcast use vstd::std_specs::hash::group_hash_axioms;

/// The identifiers of an optional set.
pub open spec fn ids_view<T>(ids: Option<HashSet<T>>) -> Option<Set<T>> {
    match ids {
        Some(s) => Some(s@),
        None => None,
    }
}

/// The subset predicate: an absent set asks nothing; a present one asks that
/// each of its members is a member of the candidate's set.
pub open spec fn subset_holds<T>(query: Option<Set<T>>, candidate: Set<T>) -> bool {
    match query {
        Some(wanted) => wanted.subset_of(candidate),
        None => true,
    }
}

/// The range predicate: an absent range asks nothing; a present one asks that
/// the candidate's count lies within it.
pub open spec fn count_holds(query: Option<(Bound, Bound)>, count: nat) -> bool {
    match query {
        Some(range) => in_range(range, count as int),
        None => true,
    }
}

/// The pattern predicate on a text: an absent pattern asks nothing.
pub open spec fn text_holds(query: Option<Regex>, text: Seq<char>) -> bool {
    match query {
        Some(pattern) => regex_is_match(pattern, text),
        None => true,
    }
}

/// Whether a nickname is there and matches `pattern`.
pub open spec fn nick_matches(pattern: Regex, nick: Option<Seq<char>>) -> bool {
    match nick {
        Some(n) => regex_is_match(pattern, n),
        None => false,
    }
}

fn subset_test<T: Eq + core::hash::Hash>(query: &Option<HashSet<T>>, candidate: &HashSet<T>) -> (r:
    bool)
    requires
        vstd::std_specs::hash::obeys_key_model::<T>(),
    ensures
        r == subset_holds(ids_view(*query), candidate@),
{
    match query {
        Some(wanted) => is_subset(wanted, candidate),
        None => true,
    }
}

fn count_test(query: &Option<(Bound, Bound)>, count: usize) -> (r: bool)
    ensures
        r == count_holds(*query, count as nat),
{
    match query {
        Some(range) => count_in_range(range, count),
        None => true,
    }
}

fn nick_test(pattern: &Regex, nick: &Option<String>) -> (r: bool)
    ensures
        r == nick_matches(*pattern, crate::entities::name_view(*nick)),
{
    match nick {
        Some(n) => is_match(pattern, n.as_str()),
        None => false,
    }
}

/// What to look for among users.
#[derive(Debug)]
pub struct UserQuery {
    /// Content items that the user must have bookmarked, all of them.
    pub bookmark: Option<HashSet<ContentId>>,
    /// How many bookmarks the user must have.
    pub bookmark_num: Option<(Bound, Bound)>,
}

impl Clone for UserQuery {
    fn clone(&self) -> (copy: UserQuery)
        ensures
            forall|user: UserView| #[trigger] copy.accepts(user) == self.accepts(user),
    {
        UserQuery { bookmark: clone_ids(&self.bookmark), bookmark_num: self.bookmark_num }
    }
}

impl Default for UserQuery {
    fn default() -> (q: UserQuery)
        ensures
            q.is_empty(),
    {
        UserQuery { bookmark: None, bookmark_num: None }
    }
}

impl UserQuery {
    /// Whether `user` meets every predicate of the query that is present.
    pub open spec fn accepts(&self, user: UserView) -> bool {
        &&& subset_holds(ids_view(self.bookmark), user.bookmark)
        &&& count_holds(self.bookmark_num, user.bookmark.len())
    }

    /// Tests `user` against the query.
    pub fn matches(&self, user: &User) -> (r: bool)
        ensures
            r == self.accepts(user@),
    {
        subset_test(&self.bookmark, &user.bookmark) && count_test(
            &self.bookmark_num,
            user.bookmark.len(),
        )
    }
}

/// What to ask of the author of a content item.
#[derive(Debug)]
pub enum AuthorQuery {
    /// A registered user with this identity.
    UserId(UserId),
    /// A registered user whose name matches.
    UserName(Regex),
    /// A registered user who has a nickname, and it matches.
    UserNick(Regex),
    /// An author known by name only, whose name matches.
    Virtual(Regex),
    /// Any author of whom some name matches.
    Any(Regex),
}

impl AuthorQuery {
    /// Whether `author` is what the query asks for.
    pub open spec fn accepts(&self, author: AuthorView) -> bool {
        match author {
            AuthorView::User { id, name, nick } => match *self {
                AuthorQuery::UserId(wanted) => wanted == id,
                AuthorQuery::UserName(pattern) => regex_is_match(pattern, name),
                AuthorQuery::UserNick(pattern) => nick_matches(pattern, nick),
                AuthorQuery::Virtual(_) => false,
                AuthorQuery::Any(pattern) => regex_is_match(pattern, name) || nick_matches(
                    pattern,
                    nick,
                ),
            },
            AuthorView::Virtual(name) => match *self {
                AuthorQuery::UserId(_) => false,
                AuthorQuery::UserName(_) => false,
                AuthorQuery::UserNick(_) => false,
                AuthorQuery::Virtual(pattern) => regex_is_match(pattern, name),
                AuthorQuery::Any(pattern) => regex_is_match(pattern, name),
            },
        }
    }

    /// Whether `author` is what the query asks for, where `name_matches` says
    /// whether the query's pattern matches the author's name, and
    /// `nick_matches` whether the author has a nickname that it matches.
    pub open spec fn judged(&self, author: AuthorView, name_matches: bool, nick_matches: bool) -> bool {
        match author {
            AuthorView::User { id, .. } => match *self {
                AuthorQuery::UserId(wanted) => wanted == id,
                AuthorQuery::UserName(_) => name_matches,
                AuthorQuery::UserNick(_) => nick_matches,
                AuthorQuery::Virtual(_) => false,
                AuthorQuery::Any(_) => name_matches || nick_matches,
            },
            AuthorView::Virtual(_) => match *self {
                AuthorQuery::UserId(_) => false,
                AuthorQuery::UserName(_) => false,
                AuthorQuery::UserNick(_) => false,
                AuthorQuery::Virtual(_) => name_matches,
                AuthorQuery::Any(_) => name_matches,
            },
        }
    }

    /// Decides on `author` from what the query's pattern found in its names.
    pub fn judge(&self, author: &Author, name_matches: bool, nick_matches: bool) -> (r: bool)
        ensures
            r == self.judged(author@, name_matches, nick_matches),
    {
        match author {
            Author::User { id, name, nick } => match self {
                AuthorQuery::UserId(wanted) => *wanted == *id,
                AuthorQuery::UserName(_) => name_matches,
                AuthorQuery::UserNick(_) => nick_matches,
                AuthorQuery::Virtual(_) => false,
                AuthorQuery::Any(_) => name_matches || nick_matches,
            },
            Author::Virtual(_) => match self {
                AuthorQuery::UserId(_) => false,
                AuthorQuery::UserName(_) => false,
                AuthorQuery::UserNick(_) => false,
                AuthorQuery::Virtual(_) => name_matches,
                AuthorQuery::Any(_) => name_matches,
            },
        }
    }

    /// Tests `author` against the query.
    pub fn matches(&self, author: &Author) -> (r: bool)
        ensures
            r == self.accepts(author@),
    {
        match self {
            AuthorQuery::UserId(_) => self.judge(author, false, false),
            AuthorQuery::UserName(pattern) => match author {
                Author::User { id, name, nick } => self.judge(
                    author,
                    is_match(pattern, name.as_str()),
                    false,
                ),
                Author::Virtual(_) => self.judge(author, false, false),
            },
            AuthorQuery::UserNick(pattern) => match author {
                Author::User { id, name, nick } => self.judge(
                    author,
                    false,
                    nick_test(pattern, nick),
                ),
                Author::Virtual(_) => self.judge(author, false, false),
            },
            AuthorQuery::Virtual(pattern) => match author {
                Author::User { .. } => self.judge(author, false, false),
                Author::Virtual(name) => self.judge(
                    author,
                    is_match(pattern, name.as_str()),
                    false,
                ),
            },
            AuthorQuery::Any(pattern) => match author {
                Author::User { id, name, nick } => {
                    if is_match(pattern, name.as_str()) {
                        self.judge(author, true, false)
                    } else {
                        self.judge(author, false, nick_test(pattern, nick))
                    }
                },
                Author::Virtual(name) => self.judge(
                    author,
                    is_match(pattern, name.as_str()),
                    false,
                ),
            },
        }
    }
}

impl Clone for AuthorQuery {
    fn clone(&self) -> (copy: AuthorQuery)
        ensures
            forall|author: AuthorView| #[trigger] copy.accepts(author) == self.accepts(author),
    {
        match self {
            AuthorQuery::UserId(id) => AuthorQuery::UserId(*id),
            AuthorQuery::UserName(pattern) => AuthorQuery::UserName(clone_pattern(pattern)),
            AuthorQuery::UserNick(pattern) => AuthorQuery::UserNick(clone_pattern(pattern)),
            AuthorQuery::Virtual(pattern) => AuthorQuery::Virtual(clone_pattern(pattern)),
            AuthorQuery::Any(pattern) => AuthorQuery::Any(clone_pattern(pattern)),
        }
    }
}

/// What to ask of the user who posted a content item.
#[derive(Debug)]
pub enum PostedQuery {
    /// The user with this identity.
    UserId(UserId),
    /// A user whose name matches.
    UserName(Regex),
    /// A user who has a nickname, and it matches.
    UserNick(Regex),
    /// A user whose name or nickname matches.
    Any(Regex),
}

impl PostedQuery {
    /// Whether `posted` is what the query asks for.
    pub open spec fn accepts(&self, posted: PostedView) -> bool {
        match *self {
            PostedQuery::UserId(wanted) => wanted == posted.id,
            PostedQuery::UserName(pattern) => regex_is_match(pattern, posted.name),
            PostedQuery::UserNick(pattern) => nick_matches(pattern, posted.nick),
            PostedQuery::Any(pattern) => regex_is_match(pattern, posted.name) || nick_matches(
                pattern,
                posted.nick,
            ),
        }
    }

    /// Whether `posted` is what the query asks for, where `name_matches` says
    /// whether the query's pattern matches the poster's name, and
    /// `nick_matches` whether the poster has a nickname that it matches.
    pub open spec fn judged(&self, posted: PostedView, name_matches: bool, nick_matches: bool) -> bool {
        match *self {
            PostedQuery::UserId(wanted) => wanted == posted.id,
            PostedQuery::UserName(_) => name_matches,
            PostedQuery::UserNick(_) => nick_matches,
            PostedQuery::Any(_) => name_matches || nick_matches,
        }
    }

    /// Decides on `posted` from what the query's pattern found in its names.
    pub fn judge(&self, posted: &Posted, name_matches: bool, nick_matches: bool) -> (r: bool)
        ensures
            r == self.judged(posted@, name_matches, nick_matches),
    {
        match self {
            PostedQuery::UserId(wanted) => *wanted == posted.id,
            PostedQuery::UserName(_) => name_matches,
            PostedQuery::UserNick(_) => nick_matches,
            PostedQuery::Any(_) => name_matches || nick_matches,
        }
    }

    /// Tests `posted` against the query.
    pub fn matches(&self, posted: &Posted) -> (r: bool)
        ensures
            r == self.accepts(posted@),
    {
        match self {
            PostedQuery::UserId(_) => self.judge(posted, false, false),
            PostedQuery::UserName(pattern) => self.judge(
                posted,
                is_match(pattern, posted.name.as_str()),
                false,
            ),
            PostedQuery::UserNick(pattern) => self.judge(
                posted,
                false,
                nick_test(pattern, &posted.nick),
            ),
            PostedQuery::Any(pattern) => {
                if is_match(pattern, posted.name.as_str()) {
                    self.judge(posted, true, false)
                } else {
                    self.judge(posted, false, nick_test(pattern, &posted.nick))
                }
            },
        }
    }
}

impl Clone for PostedQuery {
    fn clone(&self) -> (copy: PostedQuery)
        ensures
            forall|posted: PostedView| #[trigger] copy.accepts(posted) == self.accepts(posted),
    {
        match self {
            PostedQuery::UserId(id) => PostedQuery::UserId(*id),
            PostedQuery::UserName(pattern) => PostedQuery::UserName(clone_pattern(pattern)),
            PostedQuery::UserNick(pattern) => PostedQuery::UserNick(clone_pattern(pattern)),
            PostedQuery::Any(pattern) => PostedQuery::Any(clone_pattern(pattern)),
        }
    }
}

fn clone_ids<T: Copy + Eq + core::hash::Hash>(ids: &Option<HashSet<T>>) -> (copy: Option<HashSet<T>>)
    requires
        vstd::std_specs::hash::obeys_key_model::<T>(),
    ensures
        ids_view(copy) == ids_view(*ids),
{
    match ids {
        Some(set) => Some(clone_set(set)),
        None => None,
    }
}

/// What to look for among content items.
#[derive(Debug)]
pub struct ContentQuery {
    pub author: Option<AuthorQuery>,
    pub posted: Option<PostedQuery>,
    /// A pattern that the text must match somewhere.
    pub content: Option<Regex>,
    /// Users who must have liked the item, all of them.
    pub liked: Option<HashSet<UserId>>,
    /// How many likes the item must have.
    pub liked_num: Option<(Bound, Bound)>,
    /// Users who must have pinned the item, all of them.
    pub pinned: Option<HashSet<UserId>>,
    /// How many pins the item must have.
    pub pinned_num: Option<(Bound, Bound)>,
}

impl Default for ContentQuery {
    fn default() -> (q: ContentQuery)
        ensures
            q.is_empty(),
    {
        ContentQuery {
            author: None,
            posted: None,
            content: None,
            liked: None,
            liked_num: None,
            pinned: None,
            pinned_num: None,
        }
    }
}

impl ContentQuery {
    /// Whether no predicate is present.
    pub open spec fn is_empty(&self) -> bool {
        &&& self.author is None
        &&& self.posted is None
        &&& self.content is None
        &&& self.liked is None
        &&& self.liked_num is None
        &&& self.pinned is None
        &&& self.pinned_num is None
    }

    /// The author predicate: an absent one asks nothing.
    pub open spec fn author_holds(&self, author: AuthorView) -> bool {
        match self.author {
            Some(q) => q.accepts(author),
            None => true,
        }
    }

    /// The poster predicate: an absent one asks nothing.
    pub open spec fn posted_holds(&self, posted: PostedView) -> bool {
        match self.posted {
            Some(q) => q.accepts(posted),
            None => true,
        }
    }

    /// Whether `content` meets every predicate of the query that is present.
    pub open spec fn accepts(&self, content: ContentView) -> bool {
        &&& self.author_holds(content.author)
        &&& self.posted_holds(content.posted)
        &&& text_holds(self.content, content.content)
        &&& subset_holds(ids_view(self.liked), content.liked)
        &&& count_holds(self.liked_num, content.liked.len())
        &&& subset_holds(ids_view(self.pinned), content.pinned)
        &&& count_holds(self.pinned_num, content.pinned.len())
    }

    /// Whether `content` meets the query, where the three flags say whether
    /// the predicates on the author, on the poster and on the text hold: the
    /// predicates that rest on patterns.
    pub open spec fn judged(
        &self,
        content: ContentView,
        author_holds: bool,
        posted_holds: bool,
        text_holds: bool,
    ) -> bool {
        &&& author_holds
        &&& posted_holds
        &&& text_holds
        &&& subset_holds(ids_view(self.liked), content.liked)
        &&& count_holds(self.liked_num, content.liked.len())
        &&& subset_holds(ids_view(self.pinned), content.pinned)
        &&& count_holds(self.pinned_num, content.pinned.len())
    }

    /// Decides on `content` from what the patterns of the query found, and
    /// from its sets of users.
    pub fn judge(&self, content: &Content, author_holds: bool, posted_holds: bool, text_holds: bool) -> (r:
        bool)
        ensures
            r == self.judged(content@, author_holds, posted_holds, text_holds),
    {
        author_holds && posted_holds && text_holds && subset_test(&self.liked, &content.liked)
            && count_test(&self.liked_num, content.liked.len()) && subset_test(
            &self.pinned,
            &content.pinned,
        ) && count_test(&self.pinned_num, content.pinned.len())
    }

    /// Tests `content` against the query, one predicate after the other.
    pub fn matches(&self, content: &Content) -> (r: bool)
        ensures
            r == self.accepts(content@),
    {
        let author_ok = match &self.author {
            Some(q) => q.matches(&content.author),
            None => true,
        };
        if !author_ok {
            return false;
        }
        let posted_ok = match &self.posted {
            Some(q) => q.matches(&content.posted),
            None => true,
        };
        if !posted_ok {
            return false;
        }
        let text_ok = match &self.content {
            Some(pattern) => is_match(pattern, content.content.as_str()),
            None => true,
        };
        self.judge(content, author_ok, posted_ok, text_ok)
    }
}

impl Clone for ContentQuery {
    fn clone(&self) -> (copy: ContentQuery)
        ensures
            forall|content: ContentView| #[trigger] copy.accepts(content) == self.accepts(content),
    {
        ContentQuery {
            author: match &self.author {
                Some(q) => Some(q.clone()),
                None => None,
            },
            posted: match &self.posted {
                Some(q) => Some(q.clone()),
                None => None,
            },
            content: match &self.content {
                Some(pattern) => Some(clone_pattern(pattern)),
                None => None,
            },
            liked: clone_ids(&self.liked),
            liked_num: self.liked_num,
            pinned: clone_ids(&self.pinned),
            pinned_num: self.pinned_num,
        }
    }
}

impl UserQuery {
    /// Whether no predicate is present.
    pub open spec fn is_empty(&self) -> bool {
        self.bookmark is None && self.bookmark_num is None
    }
}

/// A query without predicates matches every user.
pub proof fn lemma_empty_user_query_accepts_all(query: UserQuery, user: UserView)
    requires
        query.is_empty(),
    ensures
        query.accepts(user),
{
}

/// A query without predicates matches every content item.
pub proof fn lemma_empty_content_query_accepts_all(query: ContentQuery, content: ContentView)
    requires
        query.is_empty(),
    ensures
        query.accepts(content),
{
}

/// The subset predicate holds exactly of the query sets that lie within the
/// candidate's set. So the candidate's own set passes, and a set with one
/// member more than the candidate's does not.
pub proof fn lemma_subset_predicate<T>(wanted: Set<T>, candidate: Set<T>, extra: T)
    ensures
        subset_holds(Some(wanted), candidate) <==> (forall|x: T|
            wanted.contains(x) ==> candidate.contains(x)),
        subset_holds(Some(candidate), candidate),
        !candidate.contains(extra) ==> !subset_holds(Some(candidate.insert(extra)), candidate),
{
    if !candidate.contains(extra) {
        assert(candidate.insert(extra).contains(extra));
    }
}

} // verus!
