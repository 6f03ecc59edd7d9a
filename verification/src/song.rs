//! A track of an album, and the decoding of a track listing.

use vstd::prelude::*;
use crate::error::{CatalogError, Field};
use crate::json::{
    decode_each, items_from_value, json_tree, lemma_decode_each_fails,
    lemma_decode_each_keeps_order, lemma_decode_each_step, str_from_value, trees_of, JsonTree,
};

verus! {

/// A track, as the track listing of its album names it.
#[derive(Clone, Debug, PartialEq, Eq)]
pub struct Song {
    pub id: String,
    pub name: String,
}

/// What a `Song` holds.
pub struct SongView {
    pub id: Seq<char>,
    pub name: Seq<char>,
}

impl View for Song {
    type V = SongView;

    open spec fn view(&self) -> SongView {
        SongView { id: self.id@, name: self.name@ }
    }
}

/// What each song of a sequence holds, in the same order.
pub open spec fn songs_view(songs: Seq<Song>) -> Seq<SongView> {
    songs.map_values(|song: Song| song@)
}

/// The song that one element of a track listing stands for: its `id` and
/// its `name`, both strings. Where one is missing, the first that is.
pub open spec fn spec_song(tree: JsonTree) -> Result<SongView, Field> {
    match tree.text_field(Field::Id) {
        Err(missing) => Err(missing),
        Ok(id) => match tree.text_field(Field::Name) {
            Err(missing) => Err(missing),
            Ok(name) => Ok(SongView { id, name }),
        },
    }
}

/// `spec_song` as a value, for `decode_each`.
pub open spec fn song_decoder() -> spec_fn(JsonTree) -> Result<SongView, Field> {
    |tree: JsonTree| spec_song(tree)
}

/// The songs that a track listing stands for: those of its `items` array, in
/// its order. An array without elements gives no songs and no failure.
pub open spec fn spec_songs(tree: JsonTree) -> Result<Seq<SongView>, Field> {
    match tree.array_field(Field::Items) {
        Err(missing) => Err(missing),
        Ok(items) => decode_each(items, song_decoder()),
    }
}

/// The songs of a listing stand in the order of its array, one for each
/// element: none is left out, moved or merged with another.
pub proof fn lemma_songs_keep_order(tree: JsonTree)
    requires
        spec_songs(tree) is Ok,
    ensures
        tree.array_field(Field::Items) matches Ok(items) && {
            let songs = spec_songs(tree)->Ok_0;
            &&& songs.len() == items.len()
            &&& forall|i: int|
                0 <= i < items.len() ==> Ok::<SongView, Field>(#[trigger] songs[i]) == spec_song(
                    items[i],
                )
        },
{
    let items = tree.array_field(Field::Items)->Ok_0;
    lemma_decode_each_keeps_order(items, song_decoder());
    let songs = spec_songs(tree)->Ok_0;
    assert forall|i: int| 0 <= i < items.len() implies Ok::<SongView, Field>(#[trigger] songs[i])
        == spec_song(items[i]) by {
        assert(song_decoder()(items[i]) == spec_song(items[i]));
    }
}

/// A track listing whose array holds no element gives no songs, and no
/// failure.
pub proof fn lemma_empty_listing(tree: JsonTree)
    requires
        tree.array_field(Field::Items) == Ok::<Seq<JsonTree>, Field>(Seq::empty()),
    ensures
        spec_songs(tree) == Ok::<Seq<SongView>, Field>(Seq::empty()),
{
}

/// Decodes one element of a track listing.
pub fn parse_a_song(song_data: &serde_json::Value) -> (song: Result<Song, CatalogError>)
    ensures
        match spec_song(json_tree(*song_data)) {
            Ok(decoded) => song is Ok && song->Ok_0@ == decoded,
            Err(missing) => song == Err::<Song, CatalogError>(
                CatalogError::DecodeFailure(missing),
            ),
        },
{
    let id = match str_from_value(song_data, Field::Id) {
        Ok(id) => id,
        Err(missing) => return Err(CatalogError::DecodeFailure(missing)),
    };
    let name = match str_from_value(song_data, Field::Name) {
        Ok(name) => name,
        Err(missing) => return Err(CatalogError::DecodeFailure(missing)),
    };
    Ok(Song { id, name })
}

/// Decodes the track listing of one album.
pub fn parse_songs(data: &serde_json::Value) -> (songs: Result<Vec<Song>, CatalogError>)
    ensures
        match spec_songs(json_tree(*data)) {
            Ok(decoded) => songs is Ok && songs_view(songs->Ok_0@) == decoded,
            Err(missing) => songs == Err::<Vec<Song>, CatalogError>(
                CatalogError::DecodeFailure(missing),
            ),
        },
{
    let items = match items_from_value(data, Field::Items) {
        Ok(items) => items,
        Err(missing) => return Err(CatalogError::DecodeFailure(missing)),
    };
    let ghost elements = trees_of(items@);
    let mut songs: Vec<Song> = Vec::new();
    let mut i: usize = 0;
    assert(songs_view(songs@) =~= Seq::<SongView>::empty());
    while i < items.len()
        invariant
            i <= items.len(),
            elements == trees_of(items@),
            json_tree(*data).array_field(Field::Items) == Ok::<Seq<JsonTree>, Field>(elements),
            decode_each(elements.take(i as int), song_decoder()) == Ok::<Seq<SongView>, Field>(
                songs_view(songs@),
            ),
        decreases items.len() - i,
    {
        proof {
            lemma_decode_each_step(elements, song_decoder(), i as int);
            assert(elements[i as int] == json_tree(items@[i as int]));
        }
        let ghost before = songs@;
        match parse_a_song(&items[i]) {
            Ok(song) => {
                songs.push(song);
                assert(songs_view(songs@) =~= songs_view(before).push(song@));
            },
            Err(failure) => {
                proof {
                    lemma_decode_each_fails(elements, song_decoder(), i + 1);
                }
                return Err(failure);
            },
        }
        i += 1;
    }
    assert(elements.take(i as int) =~= elements);
    Ok(songs)
}

} // verus!
