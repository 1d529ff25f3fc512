use icey_pudding::entities::{Author, Content, Posted, User};
use icey_pudding::mutation::{ContentContentMutation, ContentMutation, UserMutation};
use icey_pudding::query::{AuthorQuery, ContentQuery, UserQuery};
use icey_pudding::range::Bound;
use icey_pudding::repositories::mock::{find_index, InMemoryRepository};
use icey_pudding::repositories::{ContentRepository, RepositoryError, UserRepository};
use regex::Regex;
use std::collections::HashSet;

fn user(id: u64, bookmarks: &[u128]) -> User {
    User {
        id,
        admin: false,
        sub_admin: false,
        posted: HashSet::new(),
        bookmark: bookmarks.iter().copied().collect(),
    }
}

fn content(id: u128, author: &str, text: &str) -> Content {
    Content {
        id,
        author: Author::Virtual(author.to_string()),
        posted: Posted { id: 1, name: "poster".to_string(), nick: None },
        content: text.to_string(),
        liked: HashSet::new(),
        pinned: HashSet::new(),
        created: 10,
        edited: vec![],
    }
}

fn ids(users: &[User]) -> Vec<u64> {
    users.iter().map(|u| u.id).collect()
}

#[test]
fn new_repository_is_empty() {
    let users: InMemoryRepository<User> = InMemoryRepository::new();
    assert_eq!(users.is_exists(1), Ok(false));
    assert!(matches!(users.find(1), Err(RepositoryError::NotFound)));
    assert_eq!(users.finds(UserQuery::default()).unwrap().len(), 0);
    let contents: InMemoryRepository<Content> = InMemoryRepository::default();
    assert_eq!(contents.is_exists(1), Ok(false));
    assert_eq!(contents.finds(ContentQuery::default()).unwrap().len(), 0);
}

#[test]
fn insert_twice_with_one_key() {
    let mut users: InMemoryRepository<User> = InMemoryRepository::new();
    assert_eq!(users.insert(user(5, &[1, 2])), Ok(true));
    let mut second = user(5, &[9]);
    second.admin = true;
    assert_eq!(users.insert(second), Ok(false));
    let held = users.find(5).unwrap();
    assert_eq!(held.id, 5);
    assert!(!held.admin);
    assert_eq!(held.bookmark, [1u128, 2].into_iter().collect::<HashSet<u128>>());
    assert_eq!(users.finds(UserQuery::default()).unwrap().len(), 1);
}

#[test]
fn insert_content_twice_with_one_key() {
    let mut contents: InMemoryRepository<Content> = InMemoryRepository::new();
    assert_eq!(contents.insert(content(77, "a", "first")), Ok(true));
    assert_eq!(contents.insert(content(77, "b", "second")), Ok(false));
    let held = contents.find(77).unwrap();
    assert_eq!(held.content, "first");
    assert_eq!(contents.is_exists(77), Ok(true));
    assert_eq!(contents.is_exists(78), Ok(false));
}

#[test]
fn delete_missing_key_is_not_found() {
    let mut users: InMemoryRepository<User> = InMemoryRepository::new();
    assert!(matches!(users.delete(3), Err(RepositoryError::NotFound)));
    users.insert(user(4, &[])).unwrap();
    assert!(matches!(users.delete(3), Err(RepositoryError::NotFound)));
    assert_eq!(users.is_exists(4), Ok(true));
}

#[test]
fn delete_gives_the_record_as_it_was() {
    let mut users: InMemoryRepository<User> = InMemoryRepository::new();
    users.insert(user(1, &[])).unwrap();
    users.insert(user(2, &[8, 9])).unwrap();
    users.insert(user(3, &[])).unwrap();
    users.update(2, UserMutation { admin: Some(true), sub_admin: None }).unwrap();
    let gone = users.delete(2).unwrap();
    assert_eq!(gone.id, 2);
    assert!(gone.admin);
    assert_eq!(gone.bookmark, [8u128, 9].into_iter().collect::<HashSet<u128>>());
    assert!(matches!(users.find(2), Err(RepositoryError::NotFound)));
    assert_eq!(users.is_exists(2), Ok(false));
    assert!(matches!(users.delete(2), Err(RepositoryError::NotFound)));
    assert_eq!(ids(&users.finds(UserQuery::default()).unwrap()), vec![1, 3]);
}

#[test]
fn delete_content_then_find_fails() {
    let mut contents: InMemoryRepository<Content> = InMemoryRepository::new();
    contents.insert(content(1, "a", "one")).unwrap();
    contents.insert(content(2, "a", "two")).unwrap();
    let gone = contents.delete(1).unwrap();
    assert_eq!(gone.content, "one");
    assert!(matches!(contents.find(1), Err(RepositoryError::NotFound)));
    assert_eq!(contents.find(2).unwrap().content, "two");
    assert!(matches!(contents.delete(1), Err(RepositoryError::NotFound)));
}

#[test]
fn deleted_key_can_be_inserted_again() {
    let mut users: InMemoryRepository<User> = InMemoryRepository::new();
    assert_eq!(users.insert(user(1, &[1])), Ok(true));
    users.delete(1).unwrap();
    assert_eq!(users.insert(user(1, &[2])), Ok(true));
    assert_eq!(users.find(1).unwrap().bookmark, [2u128].into_iter().collect::<HashSet<u128>>());
}

#[test]
fn bookmark_toggle_insert_insert() {
    let mut users: InMemoryRepository<User> = InMemoryRepository::new();
    users.insert(user(1, &[])).unwrap();
    assert_eq!(users.insert_bookmark(1, 100), Ok(true));
    assert_eq!(users.insert_bookmark(1, 100), Ok(false));
    assert_eq!(users.is_bookmark(1, 100), Ok(true));
    assert_eq!(users.get_bookmark(1).unwrap(), [100u128].into_iter().collect::<HashSet<u128>>());
}

#[test]
fn bookmark_toggle_insert_delete_delete() {
    let mut users: InMemoryRepository<User> = InMemoryRepository::new();
    users.insert(user(1, &[])).unwrap();
    assert_eq!(users.insert_bookmark(1, 100), Ok(true));
    assert_eq!(users.delete_bookmark(1, 100), Ok(true));
    assert_eq!(users.delete_bookmark(1, 100), Ok(false));
    assert_eq!(users.is_bookmark(1, 100), Ok(false));
    assert!(users.get_bookmark(1).unwrap().is_empty());
}

#[test]
fn bookmark_toggle_touches_one_user_only() {
    let mut users: InMemoryRepository<User> = InMemoryRepository::new();
    users.insert(user(1, &[5])).unwrap();
    users.insert(user(2, &[5])).unwrap();
    assert_eq!(users.delete_bookmark(2, 5), Ok(true));
    assert_eq!(users.is_bookmark(1, 5), Ok(true));
    assert_eq!(users.is_bookmark(2, 5), Ok(false));
    assert_eq!(users.insert_bookmark(1, 6), Ok(true));
    assert_eq!(users.is_bookmark(2, 6), Ok(false));
}

#[test]
fn toggles_on_missing_records_are_not_found() {
    let mut users: InMemoryRepository<User> = InMemoryRepository::new();
    assert!(matches!(users.insert_bookmark(1, 1), Err(RepositoryError::NotFound)));
    assert!(matches!(users.delete_bookmark(1, 1), Err(RepositoryError::NotFound)));
    assert!(matches!(users.is_bookmark(1, 1), Err(RepositoryError::NotFound)));
    assert!(matches!(users.get_bookmark(1), Err(RepositoryError::NotFound)));
    let mut contents: InMemoryRepository<Content> = InMemoryRepository::new();
    assert!(matches!(contents.insert_liked(1, 1), Err(RepositoryError::NotFound)));
    assert!(matches!(contents.delete_liked(1, 1), Err(RepositoryError::NotFound)));
    assert!(matches!(contents.is_liked(1, 1), Err(RepositoryError::NotFound)));
    assert!(matches!(contents.get_liked(1), Err(RepositoryError::NotFound)));
    assert!(matches!(contents.insert_pinned(1, 1), Err(RepositoryError::NotFound)));
    assert!(matches!(contents.delete_pinned(1, 1), Err(RepositoryError::NotFound)));
    assert!(matches!(contents.is_pinned(1, 1), Err(RepositoryError::NotFound)));
    assert!(matches!(contents.get_pinned(1), Err(RepositoryError::NotFound)));
}

#[test]
fn like_toggle() {
    let mut contents: InMemoryRepository<Content> = InMemoryRepository::new();
    contents.insert(content(1, "a", "one")).unwrap();
    assert_eq!(contents.insert_liked(1, 7), Ok(true));
    assert_eq!(contents.insert_liked(1, 7), Ok(false));
    assert_eq!(contents.is_liked(1, 7), Ok(true));
    assert_eq!(contents.is_pinned(1, 7), Ok(false));
    assert_eq!(contents.get_liked(1).unwrap(), [7u64].into_iter().collect::<HashSet<u64>>());
    assert_eq!(contents.delete_liked(1, 7), Ok(true));
    assert_eq!(contents.delete_liked(1, 7), Ok(false));
    assert_eq!(contents.is_liked(1, 7), Ok(false));
}

#[test]
fn pin_toggle() {
    let mut contents: InMemoryRepository<Content> = InMemoryRepository::new();
    contents.insert(content(1, "a", "one")).unwrap();
    assert_eq!(contents.insert_pinned(1, 7), Ok(true));
    assert_eq!(contents.insert_pinned(1, 7), Ok(false));
    assert_eq!(contents.is_pinned(1, 7), Ok(true));
    assert_eq!(contents.is_liked(1, 7), Ok(false));
    assert_eq!(contents.get_pinned(1).unwrap(), [7u64].into_iter().collect::<HashSet<u64>>());
    assert_eq!(contents.delete_pinned(1, 7), Ok(true));
    assert_eq!(contents.delete_pinned(1, 7), Ok(false));
    assert!(contents.get_pinned(1).unwrap().is_empty());
}

#[test]
fn update_changes_the_stored_user() {
    let mut users: InMemoryRepository<User> = InMemoryRepository::new();
    users.insert(user(1, &[3])).unwrap();
    users.insert(user(2, &[])).unwrap();
    let changed = users.update(1, UserMutation { admin: Some(true), sub_admin: Some(true) }).unwrap();
    assert!(changed.admin && changed.sub_admin);
    assert_eq!(changed.bookmark.len(), 1);
    let held = users.find(1).unwrap();
    assert!(held.admin && held.sub_admin);
    let other = users.find(2).unwrap();
    assert!(!other.admin && !other.sub_admin);
    assert!(matches!(users.update(9, UserMutation::default()), Err(RepositoryError::NotFound)));
}

#[test]
fn update_changes_the_stored_content() {
    let mut contents: InMemoryRepository<Content> = InMemoryRepository::new();
    contents.insert(content(1, "a", "banana")).unwrap();
    contents.insert(content(2, "a", "banana")).unwrap();
    let sed = ContentMutation {
        author: None,
        content: Some(ContentContentMutation::Sed {
            capture: Regex::new("a").unwrap(),
            replace: "b".to_string(),
        }),
        edited: 20,
    };
    let changed = contents.update(1, sed).unwrap();
    assert_eq!(changed.content, "bbnbnb");
    assert_eq!(changed.edited, vec![20]);
    let again = contents
        .update(1, ContentMutation { author: None, content: None, edited: 30 })
        .unwrap();
    assert_eq!(again.edited, vec![20, 30]);
    assert_eq!(contents.find(1).unwrap().content, "bbnbnb");
    assert_eq!(contents.find(2).unwrap().content, "banana");
    assert_eq!(contents.find(2).unwrap().edited.len(), 0);
    assert!(matches!(
        contents.update(9, ContentMutation { author: None, content: None, edited: 1 }),
        Err(RepositoryError::NotFound)
    ));
}

#[test]
fn finds_keeps_insertion_order() {
    let mut users: InMemoryRepository<User> = InMemoryRepository::new();
    users.insert(user(30, &[1])).unwrap();
    users.insert(user(10, &[])).unwrap();
    users.insert(user(20, &[1, 2])).unwrap();
    users.insert(user(5, &[1, 2, 3])).unwrap();
    assert_eq!(ids(&users.finds(UserQuery::default()).unwrap()), vec![30, 10, 20, 5]);
    let with_one = UserQuery { bookmark: Some([1u128].into_iter().collect()), bookmark_num: None };
    assert_eq!(ids(&users.finds(with_one).unwrap()), vec![30, 20, 5]);
    let two_or_more =
        UserQuery { bookmark: None, bookmark_num: Some((Bound::Included(2), Bound::Unbounded)) };
    assert_eq!(ids(&users.finds(two_or_more).unwrap()), vec![20, 5]);
    let nobody = UserQuery { bookmark: Some([99u128].into_iter().collect()), bookmark_num: None };
    assert_eq!(users.finds(nobody).unwrap().len(), 0);
}

#[test]
fn finds_contents_by_author_and_text() {
    let mut contents: InMemoryRepository<Content> = InMemoryRepository::new();
    contents.insert(content(3, "alice", "apple pie")).unwrap();
    contents.insert(content(1, "bob", "banana bread")).unwrap();
    contents.insert(content(2, "alice", "banana split")).unwrap();
    let by_alice = ContentQuery {
        author: Some(AuthorQuery::Virtual(Regex::new("^alice$").unwrap())),
        ..ContentQuery::default()
    };
    let found: Vec<u128> = contents.finds(by_alice).unwrap().iter().map(|c| c.id).collect();
    assert_eq!(found, vec![3, 2]);
    let bananas =
        ContentQuery { content: Some(Regex::new("banana").unwrap()), ..ContentQuery::default() };
    let found: Vec<u128> = contents.finds(bananas).unwrap().iter().map(|c| c.id).collect();
    assert_eq!(found, vec![1, 2]);
    contents.insert_liked(2, 50).unwrap();
    let liked = ContentQuery {
        liked_num: Some((Bound::Included(1), Bound::Unbounded)),
        ..ContentQuery::default()
    };
    let found: Vec<u128> = contents.finds(liked).unwrap().iter().map(|c| c.id).collect();
    assert_eq!(found, vec![2]);
}

#[test]
fn find_index_counts_every_record() {
    let unique = vec![user(1, &[]), user(2, &[]), user(3, &[])];
    assert_eq!(find_index(&unique, 2), Ok(1));
    assert_eq!(find_index(&unique, 3), Ok(2));
    assert_eq!(find_index(&unique, 4), Err(RepositoryError::NotFound));
    let twice = vec![user(1, &[]), user(2, &[]), user(1, &[]), user(1, &[])];
    assert_eq!(find_index(&twice, 1), Err(RepositoryError::NoUnique { matched: 3 }));
    assert_eq!(find_index(&twice, 2), Ok(1));
    let none: Vec<User> = vec![];
    assert_eq!(find_index(&none, 1), Err(RepositoryError::NotFound));
}

#[test]
fn found_records_are_copies() {
    let mut users: InMemoryRepository<User> = InMemoryRepository::new();
    users.insert(user(1, &[1])).unwrap();
    let mut copy = users.find(1).unwrap();
    copy.bookmark.insert(2);
    copy.admin = true;
    let held = users.find(1).unwrap();
    assert!(!held.admin);
    assert_eq!(held.bookmark.len(), 1);
}
