//! An album of the catalog, and the decoding of a page of new releases.

use vstd::prelude::*;
use crate::error::{CatalogError, Field};
use crate::json::{
    as_text, decode_each, items_from_value, json_tree, lemma_decode_each_fails,
    lemma_decode_each_keeps_order, lemma_decode_each_step, member, nonempty_str_from_value,
    trees_of, u32_from_value, JsonTree,
};
use crate::song::{songs_view, Song, SongView};

verus! {

/// An album: what the page of new releases says of it, and its songs once
/// its track listing has been added.
#[derive(Clone, Debug, PartialEq, Eq)]
pub struct Album {
    pub id: String,
    pub total_tracks: u32,
    pub available_markets: Vec<String>,
    pub name: String,
    pub songs: Vec<Song>,
}

/// What an `Album` holds.
pub struct AlbumView {
    pub id: Seq<char>,
    pub total_tracks: u32,
    pub available_markets: Seq<Seq<char>>,
    pub name: Seq<char>,
    pub songs: Seq<SongView>,
}

/// The characters of each string of a sequence, in the same order.
pub open spec fn strings_view(strings: Seq<String>) -> Seq<Seq<char>> {
    strings.map_values(|text: String| text@)
}

/// What each album of a sequence holds, in the same order.
pub open spec fn albums_view(albums: Seq<Album>) -> Seq<AlbumView> {
    albums.map_values(|album: Album| album@)
}

impl View for Album {
    type V = AlbumView;

    open spec fn view(&self) -> AlbumView {
        AlbumView {
            id: self.id@,
            total_tracks: self.total_tracks,
            available_markets: strings_view(self.available_markets@),
            name: self.name@,
            songs: songs_view(self.songs@),
        }
    }
}

impl AlbumView {
    /// Identifier and name are not empty.
    pub open spec fn wf(self) -> bool {
        self.id.len() > 0 && self.name.len() > 0
    }

    /// The album with `songs` after the songs it has.
    pub open spec fn with_songs(self, songs: Seq<SongView>) -> AlbumView {
        AlbumView { songs: self.songs + songs, ..self }
    }
}

impl Album {
    /// Identifier and name are not empty. Every decoded album is so.
    pub open spec fn wf(&self) -> bool {
        self@.wf()
    }

    /// Appends the songs of a track listing to those the album has, in the
    /// order of the listing. Nothing else of the album changes.
    pub fn add_songs(&mut self, songs: Vec<Song>)
        ensures
            final(self)@ == old(self)@.with_songs(songs_view(songs@)),
    {
        let mut songs = songs;
        let ghost before = self.songs@;
        let ghost added = songs@;
        self.songs.append(&mut songs);
        assert(songs_view(before + added) =~= songs_view(before) + songs_view(added));
    }
}

/// The market code that one element of `available_markets` gives: its
/// characters where it is a string, none where it is anything else.
pub open spec fn market_code(tree: JsonTree) -> Option<Seq<char>> {
    match tree {
        JsonTree::Text(code) => Some(code),
        _ => None,
    }
}

/// `market_code` as a value, for `Seq::filter_map`.
pub open spec fn market_filter() -> spec_fn(JsonTree) -> Option<Seq<char>> {
    |tree: JsonTree| market_code(tree)
}

/// The market codes of an `available_markets` array: its strings in their
/// order, every other element left out.
pub open spec fn spec_markets(items: Seq<JsonTree>) -> Seq<Seq<char>> {
    items.filter_map(market_filter())
}

/// The album that one element of the new releases stands for, without
/// songs. `id` and `name` are strings that are not empty, `total_tracks` is
/// an unsigned 32-bit integer, `available_markets` an array. Where one is
/// missing, the first that is, in this order.
pub open spec fn spec_album(tree: JsonTree) -> Result<AlbumView, Field> {
    match tree.nonempty_text_field(Field::Id) {
        Err(missing) => Err(missing),
        Ok(id) => match tree.nonempty_text_field(Field::Name) {
            Err(missing) => Err(missing),
            Ok(name) => match tree.u32_field(Field::TotalTracks) {
                Err(missing) => Err(missing),
                Ok(total_tracks) => match tree.array_field(Field::AvailableMarkets) {
                    Err(missing) => Err(missing),
                    Ok(markets) => Ok(
                        AlbumView {
                            id,
                            total_tracks,
                            available_markets: spec_markets(markets),
                            name,
                            songs: Seq::empty(),
                        },
                    ),
                },
            },
        },
    }
}

/// `spec_album` as a value, for `decode_each`.
pub open spec fn album_decoder() -> spec_fn(JsonTree) -> Result<AlbumView, Field> {
    |tree: JsonTree| spec_album(tree)
}

/// The albums that a page of new releases stands for: those of the array
/// `items` of its member `albums`, in the array's order.
pub open spec fn spec_albums(tree: JsonTree) -> Result<Seq<AlbumView>, Field> {
    match tree.member("albums"@).array_field(Field::Items) {
        Err(missing) => Err(missing),
        Ok(items) => decode_each(items, album_decoder()),
    }
}

/// An element that is a string adds its code after those of the elements
/// before it; any other element adds nothing.
pub proof fn lemma_markets_push(items: Seq<JsonTree>, last: JsonTree)
    ensures
        spec_markets(items.push(last)) == match last {
            JsonTree::Text(code) => spec_markets(items).push(code),
            _ => spec_markets(items),
        },
{
    assert(items.push(last).drop_last() =~= items);
    if let JsonTree::Text(code) = last {
        assert(spec_markets(items) + seq![code] =~= spec_markets(items).push(code));
    }
}

/// The albums of a page stand in the order of its array, one for each
/// element; each has an identifier and a name that are not empty, and no
/// songs.
pub proof fn lemma_albums_keep_order(tree: JsonTree)
    requires
        spec_albums(tree) is Ok,
    ensures
        tree.member("albums"@).array_field(Field::Items) matches Ok(items) && {
            let albums = spec_albums(tree)->Ok_0;
            &&& albums.len() == items.len()
            &&& forall|i: int|
                0 <= i < items.len() ==> Ok::<AlbumView, Field>(#[trigger] albums[i]) == spec_album(
                    items[i],
                )
            &&& forall|i: int|
                0 <= i < items.len() ==> (#[trigger] albums[i]).wf() && albums[i].songs.len() == 0
        },
{
    let items = tree.member("albums"@).array_field(Field::Items)->Ok_0;
    lemma_decode_each_keeps_order(items, album_decoder());
    let albums = spec_albums(tree)->Ok_0;
    assert forall|i: int| 0 <= i < items.len() implies Ok::<AlbumView, Field>(
        #[trigger] albums[i],
    ) == spec_album(items[i]) by {
        assert(album_decoder()(items[i]) == spec_album(items[i]));
    }
}

/// Collects the market codes of an `available_markets` array.
pub fn parse_markets(markets: &Vec<serde_json::Value>) -> (codes: Vec<String>)
    ensures
        strings_view(codes@) == spec_markets(trees_of(markets@)),
{
    let ghost elements = trees_of(markets@);
    let mut codes: Vec<String> = Vec::new();
    let mut i: usize = 0;
    assert(strings_view(codes@) =~= Seq::<Seq<char>>::empty());
    while i < markets.len()
        invariant
            i <= markets.len(),
            elements == trees_of(markets@),
            strings_view(codes@) == spec_markets(elements.take(i as int)),
        decreases markets.len() - i,
    {
        proof {
            elements.lemma_filter_map_take_succ(market_filter(), i as int);
            assert(elements[i as int] == json_tree(markets@[i as int]));
        }
        let ghost before = codes@;
        match as_text(&markets[i]) {
            Some(code) => {
                let code = code.to_owned();
                codes.push(code);
                assert(strings_view(codes@) =~= strings_view(before) + seq![code@]);
            },
            None => {},
        }
        i += 1;
    }
    assert(elements.take(i as int) =~= elements);
    codes
}

/// Decodes one element of the new releases into an album without songs.
pub fn parse_an_album(album_data: &serde_json::Value) -> (album: Result<Album, CatalogError>)
    ensures
        match spec_album(json_tree(*album_data)) {
            Ok(decoded) => album is Ok && album->Ok_0@ == decoded && album->Ok_0.wf(),
            Err(missing) => album == Err::<Album, CatalogError>(
                CatalogError::DecodeFailure(missing),
            ),
        },
{
    let id = match nonempty_str_from_value(album_data, Field::Id) {
        Ok(id) => id,
        Err(missing) => return Err(CatalogError::DecodeFailure(missing)),
    };
    let name = match nonempty_str_from_value(album_data, Field::Name) {
        Ok(name) => name,
        Err(missing) => return Err(CatalogError::DecodeFailure(missing)),
    };
    let total_tracks = match u32_from_value(album_data, Field::TotalTracks) {
        Ok(total_tracks) => total_tracks,
        Err(missing) => return Err(CatalogError::DecodeFailure(missing)),
    };
    let markets = match items_from_value(album_data, Field::AvailableMarkets) {
        Ok(markets) => markets,
        Err(missing) => return Err(CatalogError::DecodeFailure(missing)),
    };
    let available_markets = parse_markets(markets);
    let songs: Vec<Song> = Vec::new();
    assert(songs_view(songs@) =~= Seq::<SongView>::empty());
    Ok(Album { id, available_markets, name, total_tracks, songs })
}

/// Decodes a page of new releases into its albums, none of which has songs yet.
pub fn parse_albums(data: &serde_json::Value) -> (albums: Result<Vec<Album>, CatalogError>)
    ensures
        match spec_albums(json_tree(*data)) {
            Ok(decoded) => albums is Ok && albums_view(albums->Ok_0@) == decoded,
            Err(missing) => albums == Err::<Vec<Album>, CatalogError>(
                CatalogError::DecodeFailure(missing),
            ),
        },
        albums matches Ok(decoded) ==> forall|i: int|
            0 <= i < decoded@.len() ==> (#[trigger] decoded@[i]).wf() && decoded@[i].songs@.len()
                == 0,
{
    let items = match items_from_value(member(data, "albums"), Field::Items) {
        Ok(items) => items,
        Err(missing) => return Err(CatalogError::DecodeFailure(missing)),
    };
    let ghost elements = trees_of(items@);
    let mut albums: Vec<Album> = Vec::new();
    let mut i: usize = 0;
    assert(albums_view(albums@) =~= Seq::<AlbumView>::empty());
    while i < items.len()
        invariant
            i <= items.len(),
            elements == trees_of(items@),
            json_tree(*data).member("albums"@).array_field(Field::Items) == Ok::<
                Seq<JsonTree>,
                Field,
            >(elements),
            decode_each(elements.take(i as int), album_decoder()) == Ok::<Seq<AlbumView>, Field>(
                albums_view(albums@),
            ),
        decreases items.len() - i,
    {
        proof {
            lemma_decode_each_step(elements, album_decoder(), i as int);
            assert(elements[i as int] == json_tree(items@[i as int]));
        }
        let ghost before = albums@;
        match parse_an_album(&items[i]) {
            Ok(album) => {
                albums.push(album);
                assert(albums_view(albums@) =~= albums_view(before).push(album@));
            },
            Err(failure) => {
                proof {
                    lemma_decode_each_fails(elements, album_decoder(), i + 1);
                }
                return Err(failure);
            },
        }
        i += 1;
    }
    assert(elements.take(i as int) =~= elements);
    proof {
        lemma_albums_keep_order(json_tree(*data));
        assert forall|i: int| 0 <= i < albums@.len() implies (#[trigger] albums@[i]).wf()
            && albums@[i].songs@.len() == 0 by {
            assert(albums_view(albums@)[i] == albums@[i]@);
            assert(songs_view(albums@[i].songs@).len() == albums@[i].songs@.len());
        }
    }
    Ok(albums)
}

} // verus!
