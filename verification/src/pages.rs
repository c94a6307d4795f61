//! What the pages of the site show.
//!
//! A page is held here as the data that it is filled with. Which page a
//! request gets is decided here; turning a page into HTML is the caller's
//! work.

use vstd::prelude::*;
use vstd::string::StringExecFns;
use crate::content::Shitpost;
use crate::playlist::{folder_name, name_of_folder, texts_view};
use crate::session::Session;

verus! {

/// The page with the player, for one session and its playlist.
#[derive(Debug, PartialEq, Eq)]
pub struct Player {
    pub shitposts: Vec<Shitpost>,
    pub session: String,
}

/// The page on which a host picks folders for a new session.
#[derive(Debug, PartialEq, Eq)]
pub struct Host {
    pub folders: Vec<String>,
    pub session: String,
}

/// The page on which a viewer names the session to join.
#[derive(Clone, Copy, Debug, PartialEq, Eq, Structural)]
pub struct Join;

/// The front page.
#[derive(Clone, Copy, Debug, PartialEq, Eq, Structural)]
pub struct Index;

/// The page that says what went wrong.
#[derive(Debug, PartialEq, Eq)]
pub struct Error {
    pub text: String,
}

/// Any one page.
#[derive(Debug, PartialEq, Eq)]
pub enum Page {
    Player(Player),
    Host(Host),
    Join(Join),
    Index(Index),
    Error(Error),
}

/// Tells whether a page is the error page with the given text.
pub open spec fn is_error(page: Page, text: Seq<char>) -> bool {
    match page {
        Page::Error(e) => e.text@ == text,
        _ => false,
    }
}

/// The names of the folders with the given paths.
pub open spec fn folder_names(paths: Seq<String>) -> Seq<Seq<char>> {
    Seq::new(paths.len(), |i: int| folder_name(paths[i]@))
}

/// The page for a viewer who asks to join: the player with the session's
/// playlist, or an error where there is no such session.
pub fn join(found: Option<Session>, session: String) -> (r: Page)
    ensures
        match found {
            Some(s) => r == Page::Player(Player { shitposts: s.shitposts, session }),
            None => is_error(r, "No such session exists"@),
        },
{
    match found {
        Some(s) => Page::Player(Player { shitposts: s.shitposts, session }),
        None => Page::Error(Error { text: String::from_str("No such session exists") }),
    }
}

/// The page for a host: the folders to pick from, by name.
pub fn host(paths: &Vec<String>, session: String) -> (r: Page)
    ensures
        match r {
            Page::Host(h) => h.session == session && texts_view(h.folders@) == folder_names(
                paths@,
            ),
            _ => false,
        },
{
    let mut folders: Vec<String> = Vec::new();
    let mut i: usize = 0;
    while i < paths.len()
        invariant
            i <= paths.len(),
            folders@.len() == i,
            texts_view(folders@) == folder_names(paths@.take(i as int)),
        decreases paths.len() - i,
    {
        let ghost before = folders@;
        folders.push(name_of_folder(paths[i].as_str()));
        assert forall|j: int| 0 <= j < i + 1 implies texts_view(folders@)[j] == folder_names(
            paths@.take(i + 1),
        )[j] by {
            if j < i {
                assert(texts_view(before)[j] == folder_names(paths@.take(i as int))[j]);
            }
        }
        assert(texts_view(folders@) =~= folder_names(paths@.take(i + 1)));
        i = i + 1;
    }
    assert(paths@.take(paths.len() as int) =~= paths@);
    Page::Host(Host { folders, session })
}

/// The page for a host who asked for a new session: the player with the new
/// playlist where the session was created, an error where its key was taken.
pub fn host_submit(created: bool, shitposts: Vec<Shitpost>, session: String) -> (r: Page)
    ensures
        created ==> r == Page::Player(Player { shitposts, session }),
        !created ==> is_error(r, "Session already exists"@),
{
    if created {
        Page::Player(Player { shitposts, session })
    } else {
        Page::Error(Error { text: String::from_str("Session already exists") })
    }
}

/// The front page.
pub fn index() -> (r: Page)
    ensures
        r == Page::Index(Index),
{
    Page::Index(Index)
}

} // verus!
