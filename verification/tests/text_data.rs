use micromusic::catalog::{ADOsascriptResponse, BaseAlbumResources, dedup_albums};
use micromusic::text::{ArtworkDataError, RawSongData, decode_artwork_data, track_info_line};

fn response(artist: &str, album: &str) -> ADOsascriptResponse {
    ADOsascriptResponse {
        album: album.to_string(),
        album_artist: artist.to_string(),
        artwork_data: None,
    }
}

#[test]
fn song_line_joins_with_dashes() {
    let d = RawSongData::new("Song".to_string(), "Artist".to_string(), "Album".to_string());
    assert_eq!(d.to_string(), "Artist - Song - Album");
}

#[test]
fn info_line_collapses_pictograph_runs() {
    assert_eq!(
        track_info_line("Artist", "Song \u{1F600}\u{1F680} Mix", "Album"),
        "Artist - Song \u{FFFD} Mix - Album"
    );
    // Two separate runs give two replacement characters.
    assert_eq!(
        track_info_line("A\u{1F300}B\u{1F6FF}", "S", "L"),
        "A\u{FFFD}B\u{FFFD} - S - L"
    );
    assert_eq!(track_info_line("Plain", "Text", "Only"), "Plain - Text - Only");
}

#[test]
fn artwork_data_decodes_the_framed_hex_payload() {
    // Eight frame bytes, the payload, two closing frame bytes.
    let mut data = b"????????".to_vec();
    data.extend_from_slice(b"48656c6c6f");
    data.extend_from_slice(b"!!");
    assert_eq!(decode_artwork_data(&data), Ok(b"Hello".to_vec()));
}

#[test]
fn artwork_data_errors_name_the_fault() {
    assert_eq!(
        decode_artwork_data(&b"short".to_vec()),
        Err(ArtworkDataError::TooShort)
    );
    let mut odd = b"????????".to_vec();
    odd.extend_from_slice(b"486");
    odd.extend_from_slice(b"!!");
    assert_eq!(decode_artwork_data(&odd), Err(ArtworkDataError::OddLength));
    let mut bad = b"????????".to_vec();
    bad.extend_from_slice(b"48zz");
    bad.extend_from_slice(b"!!");
    assert_eq!(
        decode_artwork_data(&bad),
        Err(ArtworkDataError::InvalidDigit { index: 2 })
    );
}

#[test]
fn dedup_keeps_first_occurrences_in_order() {
    let batch = vec![
        response("A", "One"),
        response("B", "Two"),
        response("A", "One"),
        response("A", "Three"),
        response("B", "Two"),
    ];
    let out = dedup_albums(batch);
    let keys: Vec<(String, String)> = out
        .iter()
        .map(|r| (r.album_artist.clone(), r.album.clone()))
        .collect();
    assert_eq!(
        keys,
        vec![
            ("A".to_string(), "One".to_string()),
            ("B".to_string(), "Two".to_string()),
            ("A".to_string(), "Three".to_string()),
        ]
    );
}

#[test]
fn build_names_the_cache_file_after_the_album_key() {
    let r = response("Artist", "Album");
    let built = BaseAlbumResources::build(&r, "/tmp/cache");
    assert_eq!(built.album, "Album");
    assert_eq!(built.album_artist, "Artist");
    // The file name is the unpadded URL-safe base64 of artist then album;
    // computed independently here, so a wrapper that returned its input
    // unchanged would fail.
    let expected = data_encoding::BASE64URL_NOPAD.encode("ArtistAlbum".as_bytes());
    assert_eq!(built.artwork_file_path, format!("/tmp/cache/{}.png", expected));
    assert_eq!(built.artwork_file_path, "/tmp/cache/QXJ0aXN0QWxidW0.png");
}
