//! Mutations: for each kind of record, a set of optional replacements. A field
//! whose replacement is absent stays as it is.

use crate::entities::{Author, Content, ContentView, Date, User, UserView};
use crate::pattern::{clone_pattern, regex_replace_all, replace_all};
use regex::Regex;
use vstd::prelude::*;

verus! {

/// What to change of a user.
#[derive(Clone, Copy, Debug)]
pub struct UserMutation {
    pub admin: Option<bool>,
    pub sub_admin: Option<bool>,
}

impl Default for UserMutation {
    fn default() -> (m: UserMutation)
        ensures
            m.admin is None,
            m.sub_admin is None,
    {
        UserMutation { admin: None, sub_admin: None }
    }
}

impl UserMutation {
    /// The user that `user` becomes.
    pub open spec fn applied(&self, user: UserView) -> UserView {
        UserView {
            admin: match self.admin {
                Some(v) => v,
                None => user.admin,
            },
            sub_admin: match self.sub_admin {
                Some(v) => v,
                None => user.sub_admin,
            },
            ..user
        }
    }

    /// Replaces the fields of `user` for which the mutation holds a value.
    pub fn apply(&self, user: &mut User)
        ensures
            final(user)@ == self.applied(old(user)@),
    {
        if let Some(v) = self.admin {
            user.admin = v;
        }
        if let Some(v) = self.sub_admin {
            user.sub_admin = v;
        }
    }
}

/// How to change the text of a content item.
#[derive(Debug)]
pub enum ContentContentMutation {
    /// Put this text in its place.
    Complete(String),
    /// Replace every match of `capture` by `replace`.
    Sed { capture: Regex, replace: String },
}

impl ContentContentMutation {
    /// The text that `text` becomes.
    pub open spec fn applied(&self, text: Seq<char>) -> Seq<char> {
        match *self {
            ContentContentMutation::Complete(new_text) => new_text@,
            ContentContentMutation::Sed { capture, replace } => regex_replace_all(
                capture,
                text,
                replace@,
            ),
        }
    }

    /// Computes the new text from the old one.
    pub fn apply(self, text: &str) -> (new_text: String)
        ensures
            new_text@ == self.applied(text@),
    {
        match self {
            ContentContentMutation::Complete(new_text) => new_text,
            ContentContentMutation::Sed { capture, replace } => replace_all(
                &capture,
                text,
                replace.as_str(),
            ),
        }
    }
}

impl Clone for ContentContentMutation {
    fn clone(&self) -> (copy: ContentContentMutation)
        ensures
            forall|text: Seq<char>| #[trigger] copy.applied(text) == self.applied(text),
    {
        match self {
            ContentContentMutation::Complete(new_text) => ContentContentMutation::Complete(
                new_text.clone(),
            ),
            ContentContentMutation::Sed { capture, replace } => ContentContentMutation::Sed {
                capture: clone_pattern(capture),
                replace: replace.clone(),
            },
        }
    }
}

/// What to change of a content item, and when the change is made.
#[derive(Debug)]
pub struct ContentMutation {
    pub author: Option<Author>,
    pub content: Option<ContentContentMutation>,
    /// The time of the edit, which joins the item's edit history.
    pub edited: Date,
}

impl ContentMutation {
    /// The content item that `content` becomes: present fields replace the
    /// old ones, and the time of the edit is added to the history.
    pub open spec fn applied(&self, content: ContentView) -> ContentView {
        ContentView {
            author: match self.author {
                Some(a) => a@,
                None => content.author,
            },
            content: match self.content {
                Some(m) => m.applied(content.content),
                None => content.content,
            },
            edited: content.edited.push(self.edited),
            ..content
        }
    }

    /// Applies the mutation to `content`.
    pub fn apply(self, content: &mut Content)
        ensures
            final(content)@ == self.applied(old(content)@),
    {
        let new_text = match self.content {
            Some(change) => Some(change.apply(content.content.as_str())),
            None => None,
        };
        record_edit(content, self.author, new_text, self.edited);
    }
}

/// The content item that `content` becomes by an edit at the time `edited`
/// that puts `author` and `text` in place, as far as they are present.
pub open spec fn edited_with(
    content: ContentView,
    author: Option<Author>,
    text: Option<Seq<char>>,
    edited: Date,
) -> ContentView {
    ContentView {
        author: match author {
            Some(a) => a@,
            None => content.author,
        },
        content: match text {
            Some(t) => t,
            None => content.content,
        },
        edited: content.edited.push(edited),
        ..content
    }
}

/// Puts a new author and a new text into `content`, as far as they are
/// present, and adds the time of the edit to its history.
pub fn record_edit(content: &mut Content, author: Option<Author>, text: Option<String>, edited: Date)
    ensures
        final(content)@ == edited_with(old(content)@, author, crate::entities::name_view(text), edited),
{
    if let Some(new_author) = author {
        content.author = new_author;
    }
    if let Some(new_text) = text {
        content.content = new_text;
    }
    content.edited.push(edited);
}

impl Clone for ContentMutation {
    fn clone(&self) -> (copy: ContentMutation)
        ensures
            forall|content: ContentView| #[trigger] copy.applied(content) == self.applied(content),
    {
        ContentMutation {
            author: match &self.author {
                Some(a) => Some(a.clone()),
                None => None,
            },
            content: match &self.content {
                Some(m) => Some(m.clone()),
                None => None,
            },
            edited: self.edited,
        }
    }
}

/// An edit adds one entry to the end of the history and keeps what was there.
pub proof fn lemma_edit_history_grows(mutation: ContentMutation, content: ContentView)
    ensures
        mutation.applied(content).edited.len() == content.edited.len() + 1,
        mutation.applied(content).edited.last() == mutation.edited,
        forall|i: int|
            0 <= i < content.edited.len() ==> mutation.applied(content).edited[i]
                == content.edited[i],
        mutation.applied(content).id == content.id,
{
}

} // verus!
