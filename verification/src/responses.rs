//! What is shown of a user or of a content item: a title, a colour, a
//! description, and a list of named fields.

use crate::entities::{Author, AuthorView, Content, ContentView, User, UserView};
use crate::text::{bool_string, bool_text, decimal_string, decimal_text, uuid_string, uuid_text};
use vstd::prelude::*;

verus! {

broadcast use vstd::std_specs::hash::group_hash_axioms;

pub const USER_CREATE: (u8, u8, u8) = (0xd5, 0xc4, 0xa1);

pub const USER_READ: (u8, u8, u8) = (0x83, 0xa5, 0x98);

pub const USER_UPDATE: (u8, u8, u8) = (0xb8, 0xb2, 0x26);

pub const CONTENT_READ: (u8, u8, u8) = (0xfa, 0xdb, 0x2f);

pub const CONTENT_UPDATE: (u8, u8, u8) = (0x8e, 0xc0, 0x7c);

pub const CONTENT_DELETE: (u8, u8, u8) = (0x66, 0x5c, 0x54);

pub const POST: (u8, u8, u8) = (0xfb, 0xf1, 0xc7);

pub const LIKE: (u8, u8, u8) = (0xd3, 0x86, 0x9b);

pub const PIN: (u8, u8, u8) = (0xfb, 0x49, 0x34);

pub const BOOKMARK: (u8, u8, u8) = (0x83, 0xa5, 0x98);

pub const ERROR: (u8, u8, u8) = (0xfe, 0x80, 0x19);

/// Something to show.
#[derive(Debug, PartialEq, Eq)]
pub struct Response {
    pub title: String,
    /// The colour, as red, green and blue.
    pub rgb: (u8, u8, u8),
    pub description: String,
    /// Names and values, in the order in which they are shown.
    pub fields: Vec<(String, String)>,
}

/// A response as a mathematical value.
pub struct ResponseView {
    pub title: Seq<char>,
    pub rgb: (u8, u8, u8),
    pub description: Seq<char>,
    pub fields: Seq<(Seq<char>, Seq<char>)>,
}

impl View for Response {
    type V = ResponseView;

    open spec fn view(&self) -> ResponseView {
        ResponseView {
            title: self.title@,
            rgb: self.rgb,
            description: self.description@,
            fields: self.fields@.map_values(|field: (String, String)| (field.0@, field.1@)),
        }
    }
}

/// The fields that are shown of a user.
pub open spec fn user_fields(user: UserView) -> Seq<(Seq<char>, Seq<char>)> {
    seq![
        ("id:"@, decimal_text(user.id as nat)),
        ("is_admin?"@, bool_text(user.admin)),
        ("is_sub_admin?"@, bool_text(user.sub_admin)),
        ("posted:"@, decimal_text(user.posted.len())),
        ("bookmarked:"@, decimal_text(user.bookmark.len())),
    ]
}

/// The name by which an author is shown: the name of a registered user, or
/// the name that stands for the author.
pub open spec fn author_name(author: AuthorView) -> Seq<char> {
    match author {
        AuthorView::User { name, .. } => name,
        AuthorView::Virtual(name) => name,
    }
}

/// The fields that are shown of a content item.
pub open spec fn content_fields(content: ContentView) -> Seq<(Seq<char>, Seq<char>)> {
    seq![
        ("id:"@, uuid_text(content.id)),
        ("author"@, author_name(content.author)),
        ("posted"@, decimal_text(content.posted.id as nat)),
        ("content:"@, content.content),
        ("liked:"@, decimal_text(content.liked.len())),
        ("pinned:"@, decimal_text(content.pinned.len())),
    ]
}

fn field(name: &str, value: String) -> (f: (String, String))
    ensures
        f.0@ == name@,
        f.1@ == value@,
{
    (String::from_str(name), value)
}

/// What is shown of a user, under a title and with a description.
pub fn resp_from_user(title: String, description: String, rgb: (u8, u8, u8), user: User) -> (r:
    Response)
    ensures
        r@ == (ResponseView {
            title: title@,
            rgb,
            description: description@,
            fields: user_fields(user@),
        }),
{
    let mut fields: Vec<(String, String)> = Vec::new();
    fields.push(field("id:", decimal_string(user.id)));
    fields.push(field("is_admin?", bool_string(user.admin)));
    fields.push(field("is_sub_admin?", bool_string(user.sub_admin)));
    fields.push(field("posted:", decimal_string(user.posted.len() as u64)));
    fields.push(field("bookmarked:", decimal_string(user.bookmark.len() as u64)));
    let r = Response { title, rgb, description, fields };
    assert(r@.fields =~= user_fields(user@));
    r
}

/// What is shown of a content item, under a title and with a description.
pub fn resp_from_content(title: String, description: String, rgb: (u8, u8, u8), content: Content) -> (r:
    Response)
    ensures
        r@ == (ResponseView {
            title: title@,
            rgb,
            description: description@,
            fields: content_fields(content@),
        }),
{
    let mut fields: Vec<(String, String)> = Vec::new();
    fields.push(field("id:", uuid_string(content.id)));
    let author = match content.author {
        Author::User { id, name, nick } => name,
        Author::Virtual(name) => name,
    };
    fields.push(field("author", author));
    fields.push(field("posted", decimal_string(content.posted.id)));
    fields.push(field("content:", content.content));
    fields.push(field("liked:", decimal_string(content.liked.len() as u64)));
    fields.push(field("pinned:", decimal_string(content.pinned.len() as u64)));
    let r = Response { title, rgb, description, fields };
    assert(r@.fields =~= content_fields(content@));
    r
}

} // verus!
