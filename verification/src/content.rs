//! The items that a session plays.

use vstd::prelude::*;

verus! {

/// One item of a session's playlist: what to show for it, and where the
/// player fetches it.
#[derive(Debug, PartialEq, Eq)]
pub struct Shitpost {
    pub title: String,
    pub url: String,
}

/// A playlist item as contracts speak of it: its title and its address, by
/// their characters.
pub struct ShitpostView {
    pub title: Seq<char>,
    pub url: Seq<char>,
}

impl View for Shitpost {
    type V = ShitpostView;

    open spec fn view(&self) -> ShitpostView {
        ShitpostView { title: self.title@, url: self.url@ }
    }
}

/// The items of a playlist as contracts speak of them.
pub open spec fn playlist_view(items: Seq<Shitpost>) -> Seq<ShitpostView> {
    Seq::new(items.len(), |i: int| items[i]@)
}

impl Clone for Shitpost {
    fn clone(&self) -> (r: Self)
        ensures
            r == *self,
    {
        Shitpost { title: self.title.clone(), url: self.url.clone() }
    }
}

/// Copies a playlist item by item.
pub fn copy_playlist(items: &Vec<Shitpost>) -> (r: Vec<Shitpost>)
    ensures
        r@ == items@,
{
    let mut out: Vec<Shitpost> = Vec::new();
    let mut i: usize = 0;
    while i < items.len()
        invariant
            i <= items.len(),
            out@ == items@.take(i as int),
        decreases items.len() - i,
    {
        out.push(items[i].clone());
        assert(items@.take(i + 1) =~= items@.take(i as int).push(items@[i as int]));
        i = i + 1;
    }
    assert(items@.take(items.len() as int) =~= items@);
    out
}

} // verus!
