use icey_pudding::entities::{Author, Content, Posted, User};
use icey_pudding::query::{AuthorQuery, ContentQuery, PostedQuery, UserQuery};
use icey_pudding::range::Bound;
use regex::Regex;
use std::collections::HashSet;

fn user_with_bookmarks(ids: &[u128]) -> User {
    User {
        id: 7,
        admin: false,
        sub_admin: true,
        posted: HashSet::new(),
        bookmark: ids.iter().copied().collect(),
    }
}

fn registered_author() -> Author {
    Author::User { id: 42, name: "alice".to_string(), nick: Some("ally".to_string()) }
}

fn content_by(author: Author) -> Content {
    Content {
        id: 0xa1a2a3a4b1b2c1c2d1d2d3d4d5d6d7d8,
        author,
        posted: Posted { id: 9, name: "bob".to_string(), nick: None },
        content: "a bowl of pudding".to_string(),
        liked: [1u64, 2, 3].into_iter().collect(),
        pinned: [2u64].into_iter().collect(),
        created: 1000,
        edited: vec![],
    }
}

fn pattern(text: &str) -> Regex {
    Regex::new(text).unwrap()
}

#[test]
fn empty_user_query_matches_every_user() {
    let query = UserQuery::default();
    assert!(query.bookmark.is_none());
    assert!(query.bookmark_num.is_none());
    assert!(query.matches(&user_with_bookmarks(&[])));
    assert!(query.matches(&user_with_bookmarks(&[1, 2, 3])));
}

#[test]
fn empty_content_query_matches_every_content() {
    let query = ContentQuery::default();
    assert!(query.matches(&content_by(registered_author())));
    assert!(query.matches(&content_by(Author::Virtual("nobody".to_string()))));
}

#[test]
fn bookmark_subset_is_required() {
    let subset = UserQuery { bookmark: Some([1u128, 2].into_iter().collect()), bookmark_num: None };
    assert!(subset.matches(&user_with_bookmarks(&[1, 2, 3])));
    assert!(subset.matches(&user_with_bookmarks(&[1, 2])));
    assert!(!subset.matches(&user_with_bookmarks(&[1, 3])));
    assert!(!subset.matches(&user_with_bookmarks(&[])));
}

#[test]
fn equal_set_matches_and_one_extra_member_does_not() {
    let equal = UserQuery { bookmark: Some([1u128, 2, 3].into_iter().collect()), bookmark_num: None };
    assert!(equal.matches(&user_with_bookmarks(&[1, 2, 3])));
    let extra =
        UserQuery { bookmark: Some([1u128, 2, 3, 4].into_iter().collect()), bookmark_num: None };
    assert!(!extra.matches(&user_with_bookmarks(&[1, 2, 3])));
}

#[test]
fn overlapping_sets_are_not_enough() {
    let overlapping =
        UserQuery { bookmark: Some([3u128, 4].into_iter().collect()), bookmark_num: None };
    assert!(!overlapping.matches(&user_with_bookmarks(&[1, 2, 3])));
}

#[test]
fn empty_query_set_matches_every_user() {
    let nothing = UserQuery { bookmark: Some(HashSet::new()), bookmark_num: None };
    assert!(nothing.matches(&user_with_bookmarks(&[])));
    assert!(nothing.matches(&user_with_bookmarks(&[5])));
}

#[test]
fn bookmark_count_must_lie_in_range() {
    let two_or_more =
        UserQuery { bookmark: None, bookmark_num: Some((Bound::Included(2), Bound::Unbounded)) };
    assert!(!two_or_more.matches(&user_with_bookmarks(&[1])));
    assert!(two_or_more.matches(&user_with_bookmarks(&[1, 2])));
    assert!(two_or_more.matches(&user_with_bookmarks(&[1, 2, 3])));
    let below_two =
        UserQuery { bookmark: None, bookmark_num: Some((Bound::Unbounded, Bound::Excluded(2))) };
    assert!(below_two.matches(&user_with_bookmarks(&[])));
    assert!(below_two.matches(&user_with_bookmarks(&[1])));
    assert!(!below_two.matches(&user_with_bookmarks(&[1, 2])));
}

#[test]
fn user_predicates_are_joined_by_and() {
    let query = UserQuery {
        bookmark: Some([1u128].into_iter().collect()),
        bookmark_num: Some((Bound::Included(2), Bound::Included(2))),
    };
    assert!(query.matches(&user_with_bookmarks(&[1, 2])));
    assert!(!query.matches(&user_with_bookmarks(&[1])));
    assert!(!query.matches(&user_with_bookmarks(&[2, 3])));
}

#[test]
fn author_id_matches_registered_users_only() {
    assert!(AuthorQuery::UserId(42).matches(&registered_author()));
    assert!(!AuthorQuery::UserId(43).matches(&registered_author()));
    assert!(!AuthorQuery::UserId(42).matches(&Author::Virtual("42".to_string())));
}

#[test]
fn author_name_and_nick_are_matched_apart() {
    let author = registered_author();
    assert!(AuthorQuery::UserName(pattern("^ali")).matches(&author));
    assert!(!AuthorQuery::UserName(pattern("ally")).matches(&author));
    assert!(AuthorQuery::UserNick(pattern("ally")).matches(&author));
    assert!(!AuthorQuery::UserNick(pattern("alice")).matches(&author));
    let without_nick = Author::User { id: 1, name: "alice".to_string(), nick: None };
    assert!(!AuthorQuery::UserNick(pattern(".*")).matches(&without_nick));
    assert!(!AuthorQuery::UserName(pattern("alice")).matches(&Author::Virtual("alice".to_string())));
    assert!(!AuthorQuery::UserNick(pattern("alice")).matches(&Author::Virtual("alice".to_string())));
}

#[test]
fn author_any_matches_name_or_nick_or_virtual_name() {
    let author = registered_author();
    assert!(AuthorQuery::Any(pattern("alice")).matches(&author));
    assert!(AuthorQuery::Any(pattern("ally")).matches(&author));
    assert!(!AuthorQuery::Any(pattern("carol")).matches(&author));
    assert!(AuthorQuery::Any(pattern("ghost")).matches(&Author::Virtual("a ghost".to_string())));
    assert!(!AuthorQuery::Any(pattern("alice")).matches(&Author::Virtual("a ghost".to_string())));
}

#[test]
fn virtual_query_never_matches_a_registered_user() {
    assert!(!AuthorQuery::Virtual(pattern("alice")).matches(&registered_author()));
    assert!(AuthorQuery::Virtual(pattern("^a gh")).matches(&Author::Virtual("a ghost".to_string())));
    assert!(!AuthorQuery::Virtual(pattern("^gh")).matches(&Author::Virtual("a ghost".to_string())));
}

#[test]
fn posted_query_variants() {
    let with_nick = Posted { id: 9, name: "bob".to_string(), nick: Some("bobby".to_string()) };
    let without_nick = Posted { id: 9, name: "bob".to_string(), nick: None };
    assert!(PostedQuery::UserId(9).matches(&with_nick));
    assert!(!PostedQuery::UserId(10).matches(&with_nick));
    assert!(PostedQuery::UserName(pattern("^bob$")).matches(&with_nick));
    assert!(!PostedQuery::UserName(pattern("bobby")).matches(&with_nick));
    assert!(PostedQuery::UserNick(pattern("bobby")).matches(&with_nick));
    assert!(!PostedQuery::UserNick(pattern("bob")).matches(&without_nick));
    assert!(PostedQuery::Any(pattern("bobby")).matches(&with_nick));
    assert!(PostedQuery::Any(pattern("bob")).matches(&without_nick));
    assert!(!PostedQuery::Any(pattern("bobby")).matches(&without_nick));
}

#[test]
fn content_pattern_matches_anywhere() {
    let content = content_by(registered_author());
    let mut query = ContentQuery::default();
    query.content = Some(pattern("bowl"));
    assert!(query.matches(&content));
    query.content = Some(pattern("^bowl"));
    assert!(!query.matches(&content));
    query.content = Some(pattern("p.dd"));
    assert!(query.matches(&content));
}

#[test]
fn content_sets_and_counts() {
    let content = content_by(registered_author());
    let mut query = ContentQuery::default();
    query.liked = Some([1u64, 3].into_iter().collect());
    assert!(query.matches(&content));
    query.liked = Some([1u64, 4].into_iter().collect());
    assert!(!query.matches(&content));
    query.liked = None;
    query.liked_num = Some((Bound::Included(3), Bound::Included(3)));
    assert!(query.matches(&content));
    query.liked_num = Some((Bound::Excluded(3), Bound::Unbounded));
    assert!(!query.matches(&content));
    query.liked_num = None;
    query.pinned = Some([2u64].into_iter().collect());
    assert!(query.matches(&content));
    query.pinned = Some([1u64].into_iter().collect());
    assert!(!query.matches(&content));
    query.pinned = None;
    query.pinned_num = Some((Bound::Unbounded, Bound::Included(0)));
    assert!(!query.matches(&content));
    query.pinned_num = Some((Bound::Unbounded, Bound::Included(1)));
    assert!(query.matches(&content));
}

#[test]
fn content_predicates_are_joined_by_and() {
    let content = content_by(registered_author());
    let good = ContentQuery {
        author: Some(AuthorQuery::UserId(42)),
        posted: Some(PostedQuery::UserName(pattern("bob"))),
        content: Some(pattern("pudding")),
        liked: Some([1u64].into_iter().collect()),
        liked_num: Some((Bound::Included(1), Bound::Unbounded)),
        pinned: Some([2u64].into_iter().collect()),
        pinned_num: Some((Bound::Included(1), Bound::Included(1))),
    };
    assert!(good.matches(&content));
    let wrong_author = ContentQuery { author: Some(AuthorQuery::UserId(1)), ..good };
    assert!(!wrong_author.matches(&content));
    let wrong_poster = ContentQuery {
        author: None,
        posted: Some(PostedQuery::UserId(1)),
        content: Some(pattern("pudding")),
        ..ContentQuery::default()
    };
    assert!(!wrong_poster.matches(&content));
}

#[test]
fn copies_of_queries_match_alike() {
    let content = content_by(registered_author());
    let query = ContentQuery {
        author: Some(AuthorQuery::Any(pattern("ally"))),
        posted: Some(PostedQuery::UserName(pattern("bob"))),
        content: Some(pattern("pudding")),
        liked: Some([1u64].into_iter().collect()),
        liked_num: None,
        pinned: None,
        pinned_num: Some((Bound::Included(1), Bound::Included(1))),
    };
    let copy = query.clone();
    assert!(query.matches(&content));
    assert!(copy.matches(&content));
    assert!(!copy.matches(&content_by(Author::Virtual("nobody".to_string()))));
    let users = UserQuery { bookmark: Some([1u128].into_iter().collect()), bookmark_num: None };
    let users_copy = users.clone();
    assert!(users_copy.matches(&user_with_bookmarks(&[1])));
    assert!(!users_copy.matches(&user_with_bookmarks(&[2])));
}

#[test]
fn author_verdict_from_what_the_pattern_found() {
    let author = registered_author();
    let ghost = Author::Virtual("a ghost".to_string());
    let any = AuthorQuery::Any(pattern("x"));
    assert!(any.judge(&author, true, false));
    assert!(any.judge(&author, false, true));
    assert!(!any.judge(&author, false, false));
    assert!(any.judge(&ghost, true, false));
    assert!(!any.judge(&ghost, false, true));
    let nick = AuthorQuery::UserNick(pattern("x"));
    assert!(nick.judge(&author, false, true));
    assert!(!nick.judge(&author, true, false));
    assert!(!nick.judge(&ghost, true, true));
    let name = AuthorQuery::UserName(pattern("x"));
    assert!(name.judge(&author, true, false));
    assert!(!name.judge(&author, false, true));
    assert!(!name.judge(&ghost, true, true));
    let virt = AuthorQuery::Virtual(pattern("x"));
    assert!(!virt.judge(&author, true, true));
    assert!(virt.judge(&ghost, true, false));
    assert!(!virt.judge(&ghost, false, true));
    assert!(AuthorQuery::UserId(42).judge(&author, false, false));
    assert!(!AuthorQuery::UserId(41).judge(&author, true, true));
    assert!(!AuthorQuery::UserId(42).judge(&ghost, true, true));
}

#[test]
fn poster_verdict_from_what_the_pattern_found() {
    let poster = Posted { id: 9, name: "bob".to_string(), nick: None };
    assert!(PostedQuery::UserId(9).judge(&poster, false, false));
    assert!(!PostedQuery::UserId(8).judge(&poster, true, true));
    assert!(PostedQuery::UserName(pattern("x")).judge(&poster, true, false));
    assert!(!PostedQuery::UserName(pattern("x")).judge(&poster, false, true));
    assert!(PostedQuery::UserNick(pattern("x")).judge(&poster, false, true));
    assert!(!PostedQuery::UserNick(pattern("x")).judge(&poster, true, false));
    assert!(PostedQuery::Any(pattern("x")).judge(&poster, false, true));
    assert!(PostedQuery::Any(pattern("x")).judge(&poster, true, false));
    assert!(!PostedQuery::Any(pattern("x")).judge(&poster, false, false));
}

#[test]
fn content_verdict_joins_flags_and_sets() {
    let content = content_by(registered_author());
    let query = ContentQuery {
        liked: Some([1u64, 2].into_iter().collect()),
        pinned_num: Some((Bound::Included(1), Bound::Unbounded)),
        ..ContentQuery::default()
    };
    assert!(query.judge(&content, true, true, true));
    assert!(!query.judge(&content, false, true, true));
    assert!(!query.judge(&content, true, false, true));
    assert!(!query.judge(&content, true, true, false));
    let too_many = ContentQuery {
        pinned_num: Some((Bound::Included(2), Bound::Unbounded)),
        ..ContentQuery::default()
    };
    assert!(!too_many.judge(&content, true, true, true));
}
