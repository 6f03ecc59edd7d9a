//! The catalog as text for a terminal.

use vstd::prelude::*;
use vstd::string::StringExecFns;
use crate::album::{albums_view, Album, AlbumView};
use crate::color::Color;
use crate::song::{songs_view, Song, SongView};

verus! {

/// The line of one song: an indented, coloured dash and the song's name.
pub open spec fn spec_song_line(song: SongView) -> Seq<char> {
    "     "@ + Color::BOLD_GREEN@ + "-"@ + Color::RESET@ + " "@ + song.name + "\n"@
}

/// The lines of the songs, in their order.
pub open spec fn spec_song_lines(songs: Seq<SongView>) -> Seq<char>
    decreases songs.len(),
{
    if songs.len() == 0 {
        Seq::empty()
    } else {
        spec_song_lines(songs.drop_last()) + spec_song_line(songs.last())
    }
}

/// The text of one album: a line with its name, and, where it has songs, a
/// heading, the songs' lines and an empty line.
pub open spec fn spec_album_text(album: AlbumView) -> Seq<char> {
    let title = Color::BOLD_YELLOW@ + "Album: "@ + Color::RESET@ + album.name + "\n"@;
    if album.songs.len() == 0 {
        title
    } else {
        title + Color::BOLD_GREEN@ + "Songs:"@ + Color::RESET@ + "\n"@ + spec_song_lines(
            album.songs,
        ) + "\n"@
    }
}

/// The text of the albums, in their order.
pub open spec fn spec_render_albums(albums: Seq<AlbumView>) -> Seq<char>
    decreases albums.len(),
{
    if albums.len() == 0 {
        Seq::empty()
    } else {
        spec_render_albums(albums.drop_last()) + spec_album_text(albums.last())
    }
}

/// Appends the lines of the songs to `text`.
fn render_songs(text: &mut String, songs: &Vec<Song>)
    ensures
        final(text)@ == old(text)@ + spec_song_lines(songs_view(songs@)),
{
    let ghost all = songs_view(songs@);
    let mut i: usize = 0;
    assert(spec_song_lines(all.take(0)) =~= Seq::<char>::empty());
    assert(text@ =~= old(text)@ + spec_song_lines(all.take(0)));
    while i < songs.len()
        invariant
            i <= songs.len(),
            all == songs_view(songs@),
            text@ == old(text)@ + spec_song_lines(all.take(i as int)),
        decreases songs.len() - i,
    {
        proof {
            assert(all.take(i + 1).drop_last() =~= all.take(i as int));
            assert(all.take(i + 1).last() == songs@[i as int]@);
        }
        let ghost before = text@;
        text.append("     ");
        text.append(Color::BOLD_GREEN);
        text.append("-");
        text.append(Color::RESET);
        text.append(" ");
        text.append(songs[i].name.as_str());
        text.append("\n");
        assert(text@ =~= before + spec_song_line(songs@[i as int]@));
        assert(text@ =~= old(text)@ + spec_song_lines(all.take(i + 1)));
        i += 1;
    }
    assert(all.take(i as int) =~= all);
}

/// Appends the text of one album to `text`.
fn render_album(text: &mut String, album: &Album)
    ensures
        final(text)@ == old(text)@ + spec_album_text(album@),
{
    text.append(Color::BOLD_YELLOW);
    text.append("Album: ");
    text.append(Color::RESET);
    text.append(album.name.as_str());
    text.append("\n");
    if album.songs.len() == 0 {
        assert(text@ =~= old(text)@ + spec_album_text(album@));
        return ;
    }
    text.append(Color::BOLD_GREEN);
    text.append("Songs:");
    text.append(Color::RESET);
    text.append("\n");
    render_songs(text, &album.songs);
    text.append("\n");
    assert(text@ =~= old(text)@ + spec_album_text(album@));
}

/// The catalog as text: each album with its name and its songs, in their
/// order.
pub fn render_albums(albums: &Vec<Album>) -> (text: String)
    ensures
        text@ == spec_render_albums(albums_view(albums@)),
{
    let ghost all = albums_view(albums@);
    let mut text = String::new();
    let mut i: usize = 0;
    assert(text@ =~= spec_render_albums(all.take(0)));
    while i < albums.len()
        invariant
            i <= albums.len(),
            all == albums_view(albums@),
            text@ == spec_render_albums(all.take(i as int)),
        decreases albums.len() - i,
    {
        proof {
            assert(all.take(i + 1).drop_last() =~= all.take(i as int));
            assert(all.take(i + 1).last() == albums@[i as int]@);
        }
        render_album(&mut text, &albums[i]);
        i += 1;
    }
    assert(all.take(i as int) =~= all);
    text
}

} // verus!
