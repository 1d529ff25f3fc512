use icey_pudding::entities::{Author, Content, Posted, User};
use icey_pudding::responses::{
    resp_from_content, resp_from_user, Response, BOOKMARK, CONTENT_READ, ERROR, USER_READ,
};
use icey_pudding::text::{bool_string, uuid_string};
use uuid::Uuid;

fn pair(name: &str, value: &str) -> (String, String) {
    (name.to_string(), value.to_string())
}

#[test]
fn identifier_is_written_as_the_uuid_crate_writes_it() {
    for id in [
        0u128,
        1,
        0xa1a2a3a4b1b2c1c2d1d2d3d4d5d6d7d8,
        0x0123456789abcdef0123456789abcdef,
        u128::MAX,
        0x00000000_0000_4000_8000_000000000000,
    ] {
        assert_eq!(uuid_string(id), Uuid::from_u128(id).to_string());
    }
    assert_eq!(
        uuid_string(0xa1a2a3a4b1b2c1c2d1d2d3d4d5d6d7d8),
        "a1a2a3a4-b1b2-c1c2-d1d2-d3d4d5d6d7d8"
    );
}

#[test]
fn truth_values_are_written_in_words() {
    assert_eq!(bool_string(true), "true");
    assert_eq!(bool_string(false), "false");
}

#[test]
fn response_of_a_user() {
    let user = User {
        id: 18446744073709551615,
        admin: true,
        sub_admin: false,
        posted: [1u128, 2, 3].into_iter().collect(),
        bookmark: (0u128..12).collect(),
    };
    let response = resp_from_user("got user".to_string(), "as asked".to_string(), USER_READ, user);
    assert_eq!(
        response,
        Response {
            title: "got user".to_string(),
            rgb: (0x83, 0xa5, 0x98),
            description: "as asked".to_string(),
            fields: vec![
                pair("id:", "18446744073709551615"),
                pair("is_admin?", "true"),
                pair("is_sub_admin?", "false"),
                pair("posted:", "3"),
                pair("bookmarked:", "12"),
            ],
        }
    );
}

#[test]
fn response_of_a_content() {
    let content = Content {
        id: 0xa1a2a3a4b1b2c1c2d1d2d3d4d5d6d7d8,
        author: Author::User { id: 5, name: "alice".to_string(), nick: Some("ally".to_string()) },
        posted: Posted { id: 77, name: "bob".to_string(), nick: None },
        content: "a bowl of pudding".to_string(),
        liked: [1u64, 2].into_iter().collect(),
        pinned: Default::default(),
        created: 1,
        edited: vec![2, 3],
    };
    let response = resp_from_content("got".to_string(), "".to_string(), CONTENT_READ, content);
    assert_eq!(response.title, "got");
    assert_eq!(response.description, "");
    assert_eq!(response.rgb, (0xfa, 0xdb, 0x2f));
    assert_eq!(
        response.fields,
        vec![
            pair("id:", "a1a2a3a4-b1b2-c1c2-d1d2-d3d4d5d6d7d8"),
            pair("author", "alice"),
            pair("posted", "77"),
            pair("content:", "a bowl of pudding"),
            pair("liked:", "2"),
            pair("pinned:", "0"),
        ]
    );
}

#[test]
fn response_of_a_content_by_a_virtual_author() {
    let content = Content {
        id: 0,
        author: Author::Virtual("a ghost".to_string()),
        posted: Posted { id: 0, name: "bob".to_string(), nick: None },
        content: String::new(),
        liked: Default::default(),
        pinned: [9u64].into_iter().collect(),
        created: 1,
        edited: vec![],
    };
    let response = resp_from_content("t".to_string(), "d".to_string(), ERROR, content);
    assert_eq!(response.fields[0], pair("id:", "00000000-0000-0000-0000-000000000000"));
    assert_eq!(response.fields[1], pair("author", "a ghost"));
    assert_eq!(response.fields[2], pair("posted", "0"));
    assert_eq!(response.fields[3], pair("content:", ""));
    assert_eq!(response.fields[5], pair("pinned:", "1"));
}

#[test]
fn colours() {
    assert_eq!(BOOKMARK, USER_READ);
    assert_eq!(ERROR, (0xfe, 0x80, 0x19));
}
