use icey_pudding::cmds::UserGetCmd;
use icey_pudding::entities::{Author, Content, Posted, User};
use icey_pudding::handlers::{
    judge_poster, judge_posting, judge_registration, judge_toggle, new_content, new_user, Handler,
    HandlerError, Relation, RANDOM_ID_BITS, RANDOM_ID_MASK,
};
use icey_pudding::mutation::{ContentContentMutation, ContentMutation, UserMutation};
use icey_pudding::query::{ContentQuery, UserQuery};
use icey_pudding::repositories::mock::InMemoryRepository;
use icey_pudding::repositories::RepositoryError;

fn handler() -> Handler<InMemoryRepository<User>, InMemoryRepository<Content>> {
    Handler { user_repository: InMemoryRepository::new(), content_repository: InMemoryRepository::new() }
}

fn poster(id: u64) -> Posted {
    Posted { id, name: "poster".to_string(), nick: Some("p".to_string()) }
}

fn somebody() -> Author {
    Author::Virtual("somebody".to_string())
}

#[test]
fn new_user_has_nothing() {
    let user = new_user(12);
    assert_eq!(user.id, 12);
    assert!(!user.admin);
    assert!(!user.sub_admin);
    assert!(user.posted.is_empty());
    assert!(user.bookmark.is_empty());
}

#[test]
fn new_content_is_unliked_and_unedited() {
    let item = new_content(5, "text".to_string(), poster(1), somebody(), 99);
    assert_eq!(item.id, 5);
    assert_eq!(item.content, "text");
    assert_eq!(item.posted.id, 1);
    assert_eq!(item.created, 99);
    assert!(item.liked.is_empty());
    assert!(item.pinned.is_empty());
    assert!(item.edited.is_empty());
}

#[test]
fn toggle_verdicts() {
    assert_eq!(judge_toggle(Relation::Like, false, true), Ok(()));
    assert_eq!(judge_toggle(Relation::Like, true, true), Ok(()));
    assert_eq!(
        judge_toggle(Relation::Like, false, false),
        Err(HandlerError::AlreadyDone(Relation::Like))
    );
    assert_eq!(
        judge_toggle(Relation::Pin, true, false),
        Err(HandlerError::NotDone(Relation::Pin))
    );
}

#[test]
fn register_once_only() {
    let mut h = handler();
    let user = h.register_user(1).unwrap();
    assert_eq!(user.id, 1);
    assert!(matches!(h.register_user(1), Err(HandlerError::AlreadyRegistered)));
    assert_eq!(h.get_user(1).unwrap().id, 1);
    assert!(matches!(h.get_user(2), Err(HandlerError::User(RepositoryError::NotFound))));
    assert_eq!(h.get_users(UserQuery::default()).unwrap().len(), 1);
}

#[test]
fn edit_and_unregister() {
    let mut h = handler();
    h.register_user(1).unwrap();
    let edited = h.edit_user(1, UserMutation { admin: Some(true), sub_admin: None }).unwrap();
    assert!(edited.admin);
    let gone = h.unregister_user(1).unwrap();
    assert!(gone.admin);
    assert!(matches!(h.unregister_user(1), Err(HandlerError::User(RepositoryError::NotFound))));
    assert!(matches!(
        h.edit_user(1, UserMutation::default()),
        Err(HandlerError::User(RepositoryError::NotFound))
    ));
}

#[test]
fn post_needs_a_registered_user() {
    let mut h = handler();
    assert!(matches!(
        h.content_post("text".to_string(), poster(1), somebody(), 10),
        Err(HandlerError::NotRegistered)
    ));
    h.register_user(1).unwrap();
    let item = h.content_post("text".to_string(), poster(1), somebody(), 10).unwrap();
    assert_eq!(item.content, "text");
    assert_eq!(h.get_content(item.id).unwrap().content, "text");
    assert_eq!(h.get_contents(ContentQuery::default()).unwrap().len(), 1);
}

#[test]
fn posted_identifiers_are_random_version_four() {
    let mut h = handler();
    h.register_user(1).unwrap();
    let a = h.content_post("a".to_string(), poster(1), somebody(), 10).unwrap();
    let b = h.content_post("b".to_string(), poster(1), somebody(), 10).unwrap();
    assert_eq!(a.id & RANDOM_ID_MASK, RANDOM_ID_BITS);
    assert_eq!(b.id & RANDOM_ID_MASK, RANDOM_ID_BITS);
    assert_eq!((a.id >> 76) & 0xf, 4);
    assert_eq!((a.id >> 62) & 0x3, 2);
    assert_ne!(a.id, b.id);
}

#[test]
fn post_with_an_identifier_in_use() {
    let mut h = handler();
    h.register_user(1).unwrap();
    h.content_post_with(500, "first".to_string(), poster(1), somebody(), 10).unwrap();
    assert!(matches!(
        h.content_post_with(500, "second".to_string(), poster(1), somebody(), 11),
        Err(HandlerError::DuplicateContentId)
    ));
    assert_eq!(h.get_content(500).unwrap().content, "first");
    assert!(matches!(
        h.content_post_with(501, "third".to_string(), poster(2), somebody(), 11),
        Err(HandlerError::NotRegistered)
    ));
    assert!(matches!(h.get_content(501), Err(HandlerError::Content(RepositoryError::NotFound))));
}

#[test]
fn bookmark_and_take_back() {
    let mut h = handler();
    h.register_user(1).unwrap();
    h.content_post_with(500, "text".to_string(), poster(1), somebody(), 10).unwrap();
    let (user, content) = h.user_bookmark_op(1, 500, false).unwrap();
    assert!(user.bookmark.contains(&500));
    assert_eq!(content.id, 500);
    assert!(matches!(
        h.user_bookmark_op(1, 500, false),
        Err(HandlerError::AlreadyDone(Relation::Bookmark))
    ));
    assert_eq!(h.get_user_bookmark(1).unwrap().len(), 1);
    let (user, _) = h.user_bookmark_op(1, 500, true).unwrap();
    assert!(user.bookmark.is_empty());
    assert!(matches!(
        h.user_bookmark_op(1, 500, true),
        Err(HandlerError::NotDone(Relation::Bookmark))
    ));
    assert!(matches!(
        h.user_bookmark_op(2, 500, false),
        Err(HandlerError::User(RepositoryError::NotFound))
    ));
}

#[test]
fn bookmark_of_a_missing_content_is_kept_and_reported() {
    let mut h = handler();
    h.register_user(1).unwrap();
    assert!(matches!(
        h.user_bookmark_op(1, 404, false),
        Err(HandlerError::Content(RepositoryError::NotFound))
    ));
    assert!(h.get_user_bookmark(1).unwrap().contains(&404));
}

#[test]
fn like_and_take_back() {
    let mut h = handler();
    h.register_user(1).unwrap();
    h.content_post_with(500, "text".to_string(), poster(1), somebody(), 10).unwrap();
    let liked = h.content_like_op(500, 1, false).unwrap();
    assert!(liked.liked.contains(&1));
    assert!(matches!(
        h.content_like_op(500, 1, false),
        Err(HandlerError::AlreadyDone(Relation::Like))
    ));
    assert_eq!(h.get_content_like(500).unwrap().len(), 1);
    assert!(h.get_content_pin(500).unwrap().is_empty());
    let unliked = h.content_like_op(500, 1, true).unwrap();
    assert!(unliked.liked.is_empty());
    assert!(matches!(h.content_like_op(500, 1, true), Err(HandlerError::NotDone(Relation::Like))));
    assert!(matches!(
        h.content_like_op(404, 1, false),
        Err(HandlerError::Content(RepositoryError::NotFound))
    ));
}

#[test]
fn pin_and_take_back() {
    let mut h = handler();
    h.register_user(1).unwrap();
    h.content_post_with(500, "text".to_string(), poster(1), somebody(), 10).unwrap();
    let pinned = h.content_pin_op(500, 7, false).unwrap();
    assert!(pinned.pinned.contains(&7));
    assert!(matches!(
        h.content_pin_op(500, 7, false),
        Err(HandlerError::AlreadyDone(Relation::Pin))
    ));
    assert_eq!(h.get_content_pin(500).unwrap().len(), 1);
    let unpinned = h.content_pin_op(500, 7, true).unwrap();
    assert!(unpinned.pinned.is_empty());
    assert!(matches!(h.content_pin_op(500, 7, true), Err(HandlerError::NotDone(Relation::Pin))));
}

#[test]
fn edit_and_withdraw_content() {
    let mut h = handler();
    h.register_user(1).unwrap();
    h.content_post_with(500, "banana".to_string(), poster(1), somebody(), 10).unwrap();
    let edited = h
        .edit_content(
            500,
            ContentMutation {
                author: None,
                content: Some(ContentContentMutation::Complete("cherry".to_string())),
                edited: 20,
            },
        )
        .unwrap();
    assert_eq!(edited.content, "cherry");
    assert_eq!(edited.edited, vec![20]);
    let gone = h.withdraw_content(500).unwrap();
    assert_eq!(gone.content, "cherry");
    assert!(matches!(
        h.withdraw_content(500),
        Err(HandlerError::Content(RepositoryError::NotFound))
    ));
    assert_eq!(h.get_user(1).unwrap().id, 1);
}

#[test]
fn get_command_falls_back_to_the_caller() {
    assert_eq!(UserGetCmd { user_id: Some(5) }.target(9), 5);
    assert_eq!(UserGetCmd { user_id: None }.target(9), 9);
}

#[test]
fn registration_verdicts() {
    let user = judge_registration(7, Ok(true)).unwrap();
    assert_eq!(user.id, 7);
    assert!(!user.admin && !user.sub_admin);
    assert!(user.posted.is_empty() && user.bookmark.is_empty());
    assert!(matches!(judge_registration(7, Ok(false)), Err(HandlerError::AlreadyRegistered)));
    assert!(matches!(
        judge_registration(7, Err(RepositoryError::NoUnique { matched: 2 })),
        Err(HandlerError::User(RepositoryError::NoUnique { matched: 2 }))
    ));
    assert!(matches!(
        judge_registration(7, Err(RepositoryError::Internal("down".to_string()))),
        Err(HandlerError::User(RepositoryError::Internal(cause))) if cause == "down"
    ));
}

#[test]
fn poster_verdicts() {
    assert_eq!(judge_poster(Ok(true)), Ok(()));
    assert_eq!(judge_poster(Ok(false)), Err(HandlerError::NotRegistered));
    assert_eq!(
        judge_poster(Ok(false)).unwrap_err().message(),
        "cannot find user. not registered?"
    );
    assert_eq!(
        judge_poster(Err(RepositoryError::NotFound)),
        Err(HandlerError::User(RepositoryError::NotFound))
    );
}

#[test]
fn posting_verdicts() {
    let item = new_content(5, "text".to_string(), poster(1), somebody(), 99);
    let posted = judge_posting(item.clone(), Ok(true)).unwrap();
    assert_eq!(posted.id, 5);
    assert_eq!(posted.content, "text");
    assert!(matches!(
        judge_posting(item.clone(), Ok(false)),
        Err(HandlerError::DuplicateContentId)
    ));
    assert!(matches!(
        judge_posting(item, Err(RepositoryError::Internal("down".to_string()))),
        Err(HandlerError::Content(RepositoryError::Internal(cause))) if cause == "down"
    ));
}

#[test]
fn unregistered_poster_leaves_the_contents_alone() {
    let mut h = handler();
    let refused = h.content_post_with(9, "text".to_string(), poster(3), somebody(), 1);
    assert_eq!(refused.unwrap_err().message(), "cannot find user. not registered?");
    assert_eq!(h.get_contents(ContentQuery::default()).unwrap().len(), 0);
}
