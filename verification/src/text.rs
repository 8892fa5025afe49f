//! Text and raw-data processing: the scrolling track-info line, the
//! pictograph stripping that keeps the bitmap text renderer safe, and the
//! hex decoding of the artwork bytes the player's automation bridge sends.

use vstd::prelude::*;
use vstd::string::StringExecFns;
use hex::FromHex;

verus! {

/// A track's plain metadata, before any texture is made from it.
pub struct RawSongData {
    pub name: String,
    pub artist: String,
    pub album: String,
}

impl RawSongData {
    pub fn new(name: String, artist: String, album: String) -> (r: RawSongData)
        ensures
            r.name@ == name@,
            r.artist@ == artist@,
            r.album@ == album@,
    {
        RawSongData { name, artist, album }
    }

    /// The one-line form the info ticker shows.
    pub fn to_string(&self) -> (r: String)
        ensures
            r@ == info_line(self.artist@, self.name@, self.album@),
    {
        let mut out: String = self.artist.clone();
        out.append(" - ");
        out.append(self.name.as_str());
        out.append(" - ");
        out.append(self.album.as_str());
        out
    }
}

/// The ticker line: artist, title and album joined by dashes.
pub open spec fn info_line(artist: Seq<char>, name: Seq<char>, album: Seq<char>) -> Seq<char> {
    artist + " - "@ + name + " - "@ + album
}

/// The pictographic characters the bitmap text renderer cannot draw:
/// emoticons, symbols and pictographs, transport symbols, and flags.
pub open spec fn is_pictograph(c: char) -> bool {
    ||| 0x1F600 <= c as u32 <= 0x1F64F
    ||| 0x1F300 <= c as u32 <= 0x1F5FF
    ||| 0x1F680 <= c as u32 <= 0x1F6FF
    ||| 0x1F1E0 <= c as u32 <= 0x1F1FF
}

/// Drops the leading run of pictographs.
pub open spec fn skip_pictographs(s: Seq<char>) -> Seq<char>
    decreases s.len(),
{
    if s.len() > 0 && is_pictograph(s[0]) {
        skip_pictographs(s.drop_first())
    } else {
        s
    }
}

/// Skipping a run never lengthens the string.
pub proof fn lemma_skip_pictographs_len(s: Seq<char>)
    ensures
        skip_pictographs(s).len() <= s.len(),
    decreases s.len(),
{
    if s.len() > 0 && is_pictograph(s[0]) {
        lemma_skip_pictographs_len(s.drop_first());
    }
}

/// The string with every maximal run of pictographs replaced by a single
/// replacement character.
pub open spec fn demojified(s: Seq<char>) -> Seq<char>
    decreases s.len(),
{
    if s.len() == 0 {
        s
    } else if is_pictograph(s[0]) {
        proof {
            lemma_skip_pictographs_len(s.drop_first());
        }
        seq!['\u{FFFD}'] + demojified(skip_pictographs(s.drop_first()))
    } else {
        seq![s[0]] + demojified(s.drop_first())
    }
}

/// Relies on regex::Regex::replace_all with a character-class pattern of
/// the pictograph ranges, one-or-more: each maximal run of pictographs is
/// one match, replaced by the replacement character.
#[verifier::external_body]
fn strip_pictographs(s: &str) -> (r: String)
    ensures
        r@ == demojified(s@),
{
    let pattern = "[\u{1F600}-\u{1F64F}\u{1F300}-\u{1F5FF}\u{1F680}-\u{1F6FF}\u{1F1E0}-\u{1F1FF}]+";
    regex::Regex::new(pattern).unwrap().replace_all(s, "\u{FFFD}").to_string()
}

/// The info text handed to the text renderer for the current track: the
/// ticker line with every pictograph run collapsed to one replacement
/// character.
pub fn track_info_line(artist: &str, name: &str, album: &str) -> (r: String)
    ensures
        r@ == demojified(info_line(artist@, name@, album@)),
{
    let mut joined: String = artist.to_owned();
    joined.append(" - ");
    joined.append(name);
    joined.append(" - ");
    joined.append(album);
    strip_pictographs(joined.as_str())
}

/// Why the player's raw artwork data could not be decoded.
#[derive(Clone, Copy, Debug, PartialEq, Eq, Structural)]
pub enum ArtworkDataError {
    /// The data is too short to hold the frame around the payload.
    TooShort,
    /// The hex payload has an odd number of digits.
    OddLength,
    /// The payload byte at this index (counted within the payload) is not
    /// a hex digit.
    InvalidDigit { index: usize },
}

pub open spec fn is_hex_digit(b: u8) -> bool {
    ||| 0x30 <= b <= 0x39
    ||| 0x41 <= b <= 0x46
    ||| 0x61 <= b <= 0x66
}

pub open spec fn hex_val(b: u8) -> u8 {
    if 0x30 <= b <= 0x39 {
        (b - 0x30) as u8
    } else if 0x41 <= b <= 0x46 {
        (b - 0x41 + 10) as u8
    } else {
        (b - 0x61 + 10) as u8
    }
}

/// The bytes a run of hex digits denotes, two digits a byte, high digit
/// first.
pub open spec fn hex_bytes(s: Seq<u8>) -> Seq<u8> {
    Seq::new((s.len() / 2) as nat, |i: int| (hex_val(s[2 * i]) * 16 + hex_val(s[2 * i + 1])) as u8)
}

pub open spec fn all_hex(s: Seq<u8>) -> bool {
    forall|i: int| 0 <= i < s.len() ==> is_hex_digit(#[trigger] s[i])
}

pub open spec fn first_non_hex(s: Seq<u8>) -> int {
    choose|i: int|
        0 <= i < s.len() && !is_hex_digit(s[i]) && (forall|j: int|
            0 <= j < i ==> is_hex_digit(#[trigger] s[j]))
}

/// Relies on hex::FromHex for byte vectors: decodes pairs of hex digits
/// into bytes; an odd number of digits is refused, and otherwise the first
/// byte that is no hex digit is reported with its index.
#[verifier::external_body]
fn hex_decode_bytes(data: &Vec<u8>) -> (r: Result<Vec<u8>, ArtworkDataError>)
    ensures
        (if data@.len() % 2 != 0 {
            r == Err::<Vec<u8>, ArtworkDataError>(ArtworkDataError::OddLength)
        } else if all_hex(data@) {
            r matches Ok(out) && out@ == hex_bytes(data@)
        } else {
            r == Err::<Vec<u8>, ArtworkDataError>(
                ArtworkDataError::InvalidDigit { index: first_non_hex(data@) as usize },
            )
        }),
{
    match Vec::from_hex(data) {
        Ok(bytes) => Ok(bytes),
        Err(hex::FromHexError::OddLength) => Err(ArtworkDataError::OddLength),
        Err(hex::FromHexError::InvalidHexCharacter { index, .. }) => Err(
            ArtworkDataError::InvalidDigit { index },
        ),
        Err(hex::FromHexError::InvalidStringLength) => Err(ArtworkDataError::OddLength),
    }
}

/// Bytes the automation bridge wraps around the hex payload: the opening
/// frame before it and the closing frame after it.
pub const ARTWORK_FRAME_HEAD: usize = 8;

pub const ARTWORK_FRAME_TAIL: usize = 2;

/// The hex payload inside a raw artwork datum.
pub open spec fn artwork_payload(data: Seq<u8>) -> Seq<u8> {
    data.subrange(ARTWORK_FRAME_HEAD as int, data.len() - ARTWORK_FRAME_TAIL)
}

/// Decodes the player's raw artwork data: the framing bytes around the
/// payload are dropped and the hex payload becomes the image bytes.
/// Succeeds exactly on data long enough to be framed whose payload is an
/// even number of hex digits.
pub fn decode_artwork_data(data: &Vec<u8>) -> (r: Result<Vec<u8>, ArtworkDataError>)
    ensures
        data@.len() < ARTWORK_FRAME_HEAD + ARTWORK_FRAME_TAIL ==> r == Err::<
            Vec<u8>,
            ArtworkDataError,
        >(ArtworkDataError::TooShort),
        data@.len() >= ARTWORK_FRAME_HEAD + ARTWORK_FRAME_TAIL ==> {
            let payload = artwork_payload(data@);
            &&& payload.len() % 2 != 0 ==> r == Err::<Vec<u8>, ArtworkDataError>(
                ArtworkDataError::OddLength,
            )
            &&& payload.len() % 2 == 0 && all_hex(payload) ==> (r matches Ok(out) && out@
                == hex_bytes(payload))
            &&& payload.len() % 2 == 0 && !all_hex(payload) ==> r == Err::<
                Vec<u8>,
                ArtworkDataError,
            >(ArtworkDataError::InvalidDigit { index: first_non_hex(payload) as usize })
        },
{
    if data.len() < ARTWORK_FRAME_HEAD + ARTWORK_FRAME_TAIL {
        return Err(ArtworkDataError::TooShort);
    }
    let end = data.len() - ARTWORK_FRAME_TAIL;
    let mut payload: Vec<u8> = Vec::new();
    let mut i: usize = ARTWORK_FRAME_HEAD;
    while i < end
        invariant
            ARTWORK_FRAME_HEAD <= i <= end,
            end == data@.len() - ARTWORK_FRAME_TAIL,
            data@.len() >= ARTWORK_FRAME_HEAD + ARTWORK_FRAME_TAIL,
            payload@ == data@.subrange(ARTWORK_FRAME_HEAD as int, i as int),
        decreases end - i,
    {
        payload.push(data[i]);
        proof {
            assert(payload@ =~= data@.subrange(ARTWORK_FRAME_HEAD as int, i + 1));
        }
        i = i + 1;
    }
    proof {
        assert(payload@ =~= artwork_payload(data@));
    }
    hex_decode_bytes(&payload)
}

} // verus!
