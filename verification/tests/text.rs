use icey_pudding::handlers::{HandlerError, Relation};
use icey_pudding::repositories::RepositoryError;
use icey_pudding::text::{combine_errs, decimal_string};

#[test]
fn decimal_of_small_and_large_numbers() {
    assert_eq!(decimal_string(0), "0");
    assert_eq!(decimal_string(7), "7");
    assert_eq!(decimal_string(10), "10");
    assert_eq!(decimal_string(1234567890), "1234567890");
    assert_eq!(decimal_string(u64::MAX), "18446744073709551615");
}

#[test]
fn no_errors_give_an_empty_text() {
    assert_eq!(combine_errs(vec![]), "");
}

#[test]
fn one_error_has_no_line_break() {
    assert_eq!(combine_errs(vec!["bad id".to_string()]), "err (0): bad id");
}

#[test]
fn errors_are_numbered_and_joined_by_line_breaks() {
    let errs = vec!["first".to_string(), "".to_string(), "third".to_string()];
    assert_eq!(combine_errs(errs), "err (0): first\nerr (1): \nerr (2): third");
}

#[test]
fn eleven_errors_number_past_nine() {
    let errs: Vec<String> = (0..11).map(|i| format!("e{}", i)).collect();
    let text = combine_errs(errs);
    assert!(text.starts_with("err (0): e0\nerr (1): e1\n"));
    assert!(text.ends_with("\nerr (9): e9\nerr (10): e10"));
}

#[test]
fn repository_error_messages() {
    assert_eq!(RepositoryError::NotFound.message(), "cannot find object.");
    assert_eq!(
        RepositoryError::NoUnique { matched: 3 }.message(),
        "expected unique object, found non-unique objects (matched: 3)"
    );
    assert_eq!(
        RepositoryError::NoUnique { matched: 4294967295 }.message(),
        "expected unique object, found non-unique objects (matched: 4294967295)"
    );
    assert_eq!(
        RepositoryError::Internal("disk on fire".to_string()).message(),
        "internal error: disk on fire"
    );
}

#[test]
fn handler_error_messages() {
    assert_eq!(HandlerError::AlreadyRegistered.message(), "already registered.");
    assert_eq!(HandlerError::NotRegistered.message(), "cannot find user. not registered?");
    assert_eq!(HandlerError::AlreadyDone(Relation::Bookmark).message(), "already bookmarked.");
    assert_eq!(HandlerError::AlreadyDone(Relation::Like).message(), "already liked.");
    assert_eq!(HandlerError::AlreadyDone(Relation::Pin).message(), "already pinned.");
    assert_eq!(HandlerError::NotDone(Relation::Bookmark).message(), "didn't bookmarked.");
    assert_eq!(HandlerError::NotDone(Relation::Like).message(), "didn't liked.");
    assert_eq!(HandlerError::NotDone(Relation::Pin).message(), "didn't pinned.");
    assert_eq!(HandlerError::DuplicateContentId.message(), "content_id duplicated!");
    assert_eq!(HandlerError::User(RepositoryError::NotFound).message(), "cannot find object.");
    assert_eq!(
        HandlerError::Content(RepositoryError::Internal("x".to_string())).message(),
        "internal error: x"
    );
}
