//! Putting a playlist together from folders of media files.
//!
//! Reading the folders is the caller's work. What is done here: telling which
//! folders were asked for, which of their files can be played and under
//! which address, and drawing the playlist from them at random.

use vstd::prelude::*;
use vstd::string::StringExecFns;
use crate::content::{playlist_view, Shitpost, ShitpostView};
use crate::text::{chars_of, same_text};

verus! {

/// Tells whether a text ends with another.
pub open spec fn ends_with(text: Seq<char>, ending: Seq<char>) -> bool {
    text.len() >= ending.len() && text.subrange(text.len() - ending.len(), text.len() as int)
        == ending
}

/// Tells whether a file can be played, by the ending of its name.
pub open spec fn is_playable(name: Seq<char>) -> bool {
    ends_with(name, "mp4"@) || ends_with(name, "MP4"@) || ends_with(name, "webm"@)
}

/// Where the last segment of a path starts: after its last slash, or at the
/// start where it has none.
pub open spec fn segment_start(path: Seq<char>) -> int
    decreases path.len(),
{
    if path.len() == 0 {
        0
    } else if path.last() == '/' {
        path.len() as int
    } else {
        segment_start(path.drop_last())
    }
}

/// The name of a folder: the last segment of its path.
pub open spec fn folder_name(path: Seq<char>) -> Seq<char> {
    path.subrange(segment_start(path), path.len() as int)
}

/// The last segment of a path starts inside the path, directly after a
/// slash unless it starts the path, and holds no slash itself.
pub proof fn lemma_segment_start(path: Seq<char>)
    ensures
        0 <= segment_start(path) <= path.len(),
        segment_start(path) > 0 ==> path[segment_start(path) - 1] == '/',
        forall|i: int| segment_start(path) <= i < path.len() ==> path[i] != '/',
    decreases path.len(),
{
    if path.len() > 0 && path.last() != '/' {
        lemma_segment_start(path.drop_last());
        assert forall|i: int| segment_start(path) <= i < path.len() implies path[i] != '/' by {
            if i < path.len() - 1 {
                assert(path.drop_last()[i] == path[i]);
            }
        }
        if segment_start(path) > 0 {
            assert(path.drop_last()[segment_start(path) - 1] == path[segment_start(path) - 1]);
        }
    }
}

/// The address under which a file of a folder is served.
pub open spec fn url_of(folder: Seq<char>, file: Seq<char>) -> Seq<char> {
    "/shitposts/"@ + folder + "/"@ + file
}

/// The playlist item for a file of a folder: the file's name is its title.
pub open spec fn item_of(folder: Seq<char>, file: Seq<char>) -> ShitpostView {
    ShitpostView { title: file, url: url_of(folder, file) }
}

/// The playlist items for the files of a folder that can be played, in the
/// order of the files.
pub open spec fn items_of(folder: Seq<char>, files: Seq<String>) -> Seq<ShitpostView>
    decreases files.len(),
{
    if files.len() == 0 {
        Seq::empty()
    } else if is_playable(files.last()@) {
        items_of(folder, files.drop_last()).push(item_of(folder, files.last()@))
    } else {
        items_of(folder, files.drop_last())
    }
}

fn has_ending(cs: &Vec<char>, ending: &str) -> (r: bool)
    ensures
        r == ends_with(cs@, ending@),
{
    let es = chars_of(ending);
    if cs.len() < es.len() {
        return false;
    }
    let start: usize = cs.len() - es.len();
    let mut i: usize = 0;
    while i < es.len()
        invariant
            i <= es.len(),
            es@ == ending@,
            start + es.len() == cs.len(),
            forall|j: int| 0 <= j < i ==> cs@[start + j] == es@[j],
        decreases es.len() - i,
    {
        if cs[start + i] != es[i] {
            assert(cs@.subrange(start as int, cs.len() as int)[i as int] != es@[i as int]);
            return false;
        }
        i = i + 1;
    }
    assert(cs@.subrange(start as int, cs.len() as int) =~= es@);
    true
}

/// Tells whether a file can be played: its name ends in `mp4`, `MP4` or
/// `webm`.
pub fn playable(name: &str) -> (r: bool)
    ensures
        r == is_playable(name@),
{
    let cs = chars_of(name);
    has_ending(&cs, "mp4") || has_ending(&cs, "MP4") || has_ending(&cs, "webm")
}

/// The name of a folder: what follows the last slash of its path, or the
/// whole path where it has no slash.
pub fn name_of_folder(path: &str) -> (r: String)
    ensures
        r@ == folder_name(path@),
{
    let cs = chars_of(path);
    let mut start: usize = cs.len();
    assert(cs@.take(cs.len() as int) =~= cs@);
    while start > 0 && cs[start - 1] != '/'
        invariant
            start <= cs.len(),
            cs@ == path@,
            segment_start(cs@) == segment_start(cs@.take(start as int)),
        decreases start,
    {
        assert(cs@.take(start as int).drop_last() =~= cs@.take(start - 1));
        start = start - 1;
    }
    proof {
        if start > 0 {
            assert(cs@.take(start as int).last() == '/');
        }
        assert(segment_start(cs@.take(start as int)) == start);
    }
    path.substring_char(start, cs.len()).to_owned()
}

/// The playlist item for a file of the folder with the given name.
pub fn shitpost_for(folder: &str, file: &str) -> (r: Shitpost)
    ensures
        r@ == item_of(folder@, file@),
{
    let mut url = String::from_str("/shitposts/");
    url.append(folder);
    url.append("/");
    url.append(file);
    Shitpost { title: file.to_owned(), url }
}

/// The playlist items for the files of a folder that can be played, in the
/// order of the files. The folder is given by its path.
pub fn shitposts_in(path: &str, files: &Vec<String>) -> (r: Vec<Shitpost>)
    ensures
        playlist_view(r@) == items_of(folder_name(path@), files@),
{
    let folder = name_of_folder(path);
    let mut out: Vec<Shitpost> = Vec::new();
    let mut i: usize = 0;
    while i < files.len()
        invariant
            i <= files.len(),
            folder@ == folder_name(path@),
            playlist_view(out@) == items_of(folder@, files@.take(i as int)),
        decreases files.len() - i,
    {
        proof {
            assert(files@.take(i + 1).drop_last() =~= files@.take(i as int));
            assert(files@.take(i + 1).last() == files@[i as int]);
        }
        if playable(files[i].as_str()) {
            let ghost before = out@;
            out.push(shitpost_for(folder.as_str(), files[i].as_str()));
            assert(playlist_view(out@) =~= playlist_view(before).push(
                item_of(folder@, files@[i as int]@),
            ));
        }
        i = i + 1;
    }
    assert(files@.take(files.len() as int) =~= files@);
    out
}

/// Tells whether a folder is among those asked for: whether its name is.
pub open spec fn is_requested(path: Seq<char>, wanted: Seq<String>) -> bool {
    exists|i: int| 0 <= i < wanted.len() && (#[trigger] wanted[i])@ == folder_name(path)
}

/// Tells whether a folder, given by its path, is among those asked for by
/// name.
pub fn requested(path: &str, wanted: &Vec<String>) -> (r: bool)
    ensures
        r == is_requested(path@, wanted@),
{
    let name = name_of_folder(path);
    let mut i: usize = 0;
    while i < wanted.len()
        invariant
            i <= wanted.len(),
            name@ == folder_name(path@),
            forall|j: int| 0 <= j < i ==> (#[trigger] wanted@[j])@ != name@,
        decreases wanted.len() - i,
    {
        if wanted[i] == name {
            return true;
        }
        i = i + 1;
    }
    false
}

/// The values that a request gives under the key `folders`, in the order of
/// the request.
pub open spec fn folder_values(pairs: Seq<(String, String)>) -> Seq<Seq<char>>
    decreases pairs.len(),
{
    if pairs.len() == 0 {
        Seq::empty()
    } else if pairs.last().0@ == "folders"@ {
        folder_values(pairs.drop_last()).push(pairs.last().1@)
    } else {
        folder_values(pairs.drop_last())
    }
}

/// The characters of each text.
pub open spec fn texts_view(texts: Seq<String>) -> Seq<Seq<char>> {
    Seq::new(texts.len(), |i: int| texts[i]@)
}

/// Picks the folders that a request asks for out of its pairs of key and
/// value: every value under the key `folders`, and nothing else.
pub fn folders_of(pairs: &Vec<(String, String)>) -> (r: Vec<String>)
    ensures
        texts_view(r@) == folder_values(pairs@),
{
    let mut out: Vec<String> = Vec::new();
    let mut i: usize = 0;
    while i < pairs.len()
        invariant
            i <= pairs.len(),
            texts_view(out@) == folder_values(pairs@.take(i as int)),
        decreases pairs.len() - i,
    {
        proof {
            assert(pairs@.take(i + 1).drop_last() =~= pairs@.take(i as int));
            assert(pairs@.take(i + 1).last() == pairs@[i as int]);
        }
        if same_text(pairs[i].0.as_str(), "folders") {
            let ghost before = out@;
            out.push(pairs[i].1.clone());
            assert(texts_view(out@) =~= texts_view(before).push(pairs@[i as int].1@));
        }
        i = i + 1;
    }
    assert(pairs@.take(pairs.len() as int) =~= pairs@);
    out
}

/// What was found in one folder: its path and the names of its files.
pub struct Listing {
    pub path: String,
    pub files: Vec<String>,
}

/// The playlist items of several folders, folder after folder.
pub open spec fn gathered(listings: Seq<Listing>) -> Seq<ShitpostView>
    decreases listings.len(),
{
    if listings.len() == 0 {
        Seq::empty()
    } else {
        gathered(listings.drop_last()) + items_of(
            folder_name(listings.last().path@),
            listings.last().files@,
        )
    }
}

/// The playlist items for all files that can be played in the given
/// folders, folder after folder and file after file.
pub fn gather(listings: &Vec<Listing>) -> (r: Vec<Shitpost>)
    ensures
        playlist_view(r@) == gathered(listings@),
{
    let mut out: Vec<Shitpost> = Vec::new();
    let mut i: usize = 0;
    while i < listings.len()
        invariant
            i <= listings.len(),
            playlist_view(out@) == gathered(listings@.take(i as int)),
        decreases listings.len() - i,
    {
        proof {
            assert(listings@.take(i + 1).drop_last() =~= listings@.take(i as int));
            assert(listings@.take(i + 1).last() == listings@[i as int]);
        }
        let ghost before = out@;
        let mut found = shitposts_in(listings[i].path.as_str(), &listings[i].files);
        let ghost added = found@;
        out.append(&mut found);
        assert(playlist_view(out@) =~= playlist_view(before) + playlist_view(added));
        i = i + 1;
    }
    assert(listings@.take(listings.len() as int) =~= listings@);
    out
}

/// The generator of random numbers of `rand` that belongs to the running
/// thread. Nothing is said of what it will give.
#[verifier::external_type_specification]
#[verifier::external_body]
pub struct ExThreadRng(rand::rngs::ThreadRng);

/// Calls `rand::thread_rng`, which hands out the running thread's generator.
/// It fails only where the system cannot seed a generator at all.
#[verifier::external_body]
fn thread_rng() -> rand::rngs::ThreadRng {
    rand::thread_rng()
}

/// Calls `rand::seq::SliceRandom::shuffle`. The shuffle does nothing but
/// swap items, so whatever order comes out, every item is there as often as
/// it was before.
#[verifier::external_body]
fn shuffle(items: &mut Vec<Shitpost>, rng: &mut rand::rngs::ThreadRng)
    ensures
        final(items)@.to_multiset() == old(items)@.to_multiset(),
{
    rand::seq::SliceRandom::shuffle(items.as_mut_slice(), rng);
}

/// The number of items that a playlist gets when `amount` are asked for and
/// `available` are there.
pub open spec fn drawn_len(available: nat, amount: usize) -> nat {
    if amount <= available {
        amount as nat
    } else {
        available
    }
}

/// The first `amount` items, or all of them where there are fewer.
pub fn first(items: Vec<Shitpost>, amount: usize) -> (r: Vec<Shitpost>)
    ensures
        r@ == items@.take(drawn_len(items@.len(), amount) as int),
{
    let mut items = items;
    let ghost before = items@;
    items.truncate(amount);
    assert(items@ =~= before.take(drawn_len(before.len(), amount) as int));
    items
}

/// Draws a playlist at random: the items are shuffled, and the first
/// `amount` of them are taken, or all where there are fewer. Which order the
/// shuffle gives is left to chance; the playlist is the start of some
/// rearrangement of the items.
pub fn draw(items: Vec<Shitpost>, amount: usize) -> (r: Vec<Shitpost>)
    ensures
        r@.len() == drawn_len(items@.len(), amount),
        exists|shuffled: Seq<Shitpost>|
            #![trigger shuffled.to_multiset()]
            shuffled.to_multiset() == items@.to_multiset() && r@ == shuffled.take(
                r@.len() as int,
            ),
{
    let mut shuffled = items;
    let mut rng = thread_rng();
    shuffle(&mut shuffled, &mut rng);
    let ghost order = shuffled@;
    proof {
        order.to_multiset_ensures();
        items@.to_multiset_ensures();
    }
    let r = first(shuffled, amount);
    assert(order.to_multiset() == items@.to_multiset() && r@ == order.take(r@.len() as int));
    r
}

} // verus!
