//! The two kinds of record, users and content items, and what they mean as
//! mathematical values.

use crate::sets::clone_set;
use std::collections::HashSet;
use vstd::prelude::*;

verus! {

broadcast use vstd::std_specs::hash::group_hash_axioms;

/// Identity of a user.
pub type UserId = u64;

/// Identity of a content item: a 128-bit identifier.
pub type ContentId = u128;

/// A point in time.
pub type Date = i64;

/// A registered user.
#[derive(Debug)]
pub struct User {
    pub id: UserId,
    pub admin: bool,
    pub sub_admin: bool,
    pub posted: HashSet<ContentId>,
    pub bookmark: HashSet<ContentId>,
}

/// A user as a mathematical value.
pub struct UserView {
    pub id: UserId,
    pub admin: bool,
    pub sub_admin: bool,
    pub posted: Set<ContentId>,
    pub bookmark: Set<ContentId>,
}

impl View for User {
    type V = UserView;

    open spec fn view(&self) -> UserView {
        UserView {
            id: self.id,
            admin: self.admin,
            sub_admin: self.sub_admin,
            posted: self.posted@,
            bookmark: self.bookmark@,
        }
    }
}

impl Clone for User {
    fn clone(&self) -> (copy: User)
        ensures
            copy@ == self@,
    {
        User {
            id: self.id,
            admin: self.admin,
            sub_admin: self.sub_admin,
            posted: clone_set(&self.posted),
            bookmark: clone_set(&self.bookmark),
        }
    }
}

/// Who wrote a content item: a registered user, or somebody known by name only.
#[derive(Debug)]
pub enum Author {
    User { id: UserId, name: String, nick: Option<String> },
    Virtual(String),
}

/// An author as a mathematical value.
pub enum AuthorView {
    User { id: UserId, name: Seq<char>, nick: Option<Seq<char>> },
    Virtual(Seq<char>),
}

/// The text of an optional name.
pub open spec fn name_view(name: Option<String>) -> Option<Seq<char>> {
    match name {
        Some(n) => Some(n@),
        None => None,
    }
}

fn clone_name(name: &Option<String>) -> (copy: Option<String>)
    ensures
        name_view(copy) == name_view(*name),
{
    match name {
        Some(n) => Some(n.clone()),
        None => None,
    }
}

impl View for Author {
    type V = AuthorView;

    open spec fn view(&self) -> AuthorView {
        match *self {
            Author::User { id, name, nick } => AuthorView::User {
                id,
                name: name@,
                nick: name_view(nick),
            },
            Author::Virtual(name) => AuthorView::Virtual(name@),
        }
    }
}

impl Clone for Author {
    fn clone(&self) -> (copy: Author)
        ensures
            copy@ == self@,
    {
        match self {
            Author::User { id, name, nick } => Author::User {
                id: *id,
                name: name.clone(),
                nick: clone_name(nick),
            },
            Author::Virtual(name) => Author::Virtual(name.clone()),
        }
    }
}

/// The user who posted a content item, as known when it was posted.
#[derive(Debug)]
pub struct Posted {
    pub id: UserId,
    pub name: String,
    pub nick: Option<String>,
}

/// A poster as a mathematical value.
pub struct PostedView {
    pub id: UserId,
    pub name: Seq<char>,
    pub nick: Option<Seq<char>>,
}

impl View for Posted {
    type V = PostedView;

    open spec fn view(&self) -> PostedView {
        PostedView { id: self.id, name: self.name@, nick: name_view(self.nick) }
    }
}

impl Clone for Posted {
    fn clone(&self) -> (copy: Posted)
        ensures
            copy@ == self@,
    {
        Posted { id: self.id, name: self.name.clone(), nick: clone_name(&self.nick) }
    }
}

/// A content item.
#[derive(Debug)]
pub struct Content {
    pub id: ContentId,
    pub author: Author,
    pub posted: Posted,
    pub content: String,
    pub liked: HashSet<UserId>,
    pub pinned: HashSet<UserId>,
    pub created: Date,
    /// When the item was edited, oldest first; entries are only ever added.
    pub edited: Vec<Date>,
}

/// A content item as a mathematical value.
pub struct ContentView {
    pub id: ContentId,
    pub author: AuthorView,
    pub posted: PostedView,
    pub content: Seq<char>,
    pub liked: Set<UserId>,
    pub pinned: Set<UserId>,
    pub created: Date,
    pub edited: Seq<Date>,
}

impl View for Content {
    type V = ContentView;

    open spec fn view(&self) -> ContentView {
        ContentView {
            id: self.id,
            author: self.author@,
            posted: self.posted@,
            content: self.content@,
            liked: self.liked@,
            pinned: self.pinned@,
            created: self.created,
            edited: self.edited@,
        }
    }
}

fn clone_dates(dates: &Vec<Date>) -> (copy: Vec<Date>)
    ensures
        copy@ == dates@,
{
    let mut copy: Vec<Date> = Vec::new();
    let mut i: usize = 0;
    while i < dates.len()
        invariant
            i <= dates.len(),
            copy@ == dates@.take(i as int),
        decreases dates.len() - i,
    {
        copy.push(dates[i]);
        assert(dates@.take(i + 1) == dates@.take(i as int).push(dates@[i as int]));
        i += 1;
    }
    assert(dates@.take(dates.len() as int) == dates@);
    copy
}

impl Clone for Content {
    fn clone(&self) -> (copy: Content)
        ensures
            copy@ == self@,
    {
        Content {
            id: self.id,
            author: self.author.clone(),
            posted: self.posted.clone(),
            content: self.content.clone(),
            liked: clone_set(&self.liked),
            pinned: clone_set(&self.pinned),
            created: self.created,
            edited: clone_dates(&self.edited),
        }
    }
}

} // verus!
