//! Album records and the compute half of the catalog loader: removing
//! duplicate albums from the fetched batch, naming each record's artwork
//! cache file, and shuffling the load order.

use vstd::prelude::*;
use vstd::string::StringExecFns;
use rand::seq::SliceRandom;

verus! {

/// Immutable album metadata plus an opaque handle to its artwork image;
/// built once by the loader and referenced by index from the grid.
pub struct AlbumRecord {
    pub title: String,
    pub album_artist: String,
    pub artwork: u64,
}

impl AlbumRecord {
    pub fn title(&self) -> (r: &String)
        ensures
            r@ == self.title@,
    {
        &self.title
    }

    pub fn album_artist(&self) -> (r: &String)
        ensures
            r@ == self.album_artist@,
    {
        &self.album_artist
    }

    pub fn artwork(&self) -> (r: u64)
        ensures
            r == self.artwork,
    {
        self.artwork
    }
}

/// One album as reported by the external music player: its name, artist,
/// and raw artwork data when the player sent any.
pub struct ADOsascriptResponse {
    pub album: String,
    pub album_artist: String,
    pub artwork_data: Option<String>,
}

/// Two fetched albums denote the same album: equal artist and name.
pub open spec fn same_album(a: ADOsascriptResponse, b: ADOsascriptResponse) -> bool {
    a.album@ == b.album@ && a.album_artist@ == b.album_artist@
}

pub open spec fn has_album(s: Seq<ADOsascriptResponse>, rec: ADOsascriptResponse) -> bool {
    exists|i: int| 0 <= i < s.len() && same_album(s[i], rec)
}

/// The batch with later duplicates removed: each album's first occurrence
/// survives, in order.
pub open spec fn spec_dedup(s: Seq<ADOsascriptResponse>) -> Seq<ADOsascriptResponse>
    decreases s.len(),
{
    if s.len() == 0 {
        Seq::empty()
    } else {
        let prev = spec_dedup(s.drop_last());
        if has_album(prev, s.last()) {
            prev
        } else {
            prev.push(s.last())
        }
    }
}

fn batch_has_album(batch: &Vec<ADOsascriptResponse>, rec: &ADOsascriptResponse) -> (r: bool)
    ensures
        r == has_album(batch@, *rec),
{
    let mut i: usize = 0;
    while i < batch.len()
        invariant
            i <= batch@.len(),
            forall|j: int| 0 <= j < i ==> !same_album(batch@[j], *rec),
        decreases batch@.len() - i,
    {
        if batch[i].album == rec.album && batch[i].album_artist == rec.album_artist {
            return true;
        }
        i = i + 1;
    }
    false
}

/// Removes duplicate albums from a fetched batch, keeping the first
/// occurrence of each album and the order of first occurrences.
pub fn dedup_albums(batch: Vec<ADOsascriptResponse>) -> (r: Vec<ADOsascriptResponse>)
    ensures
        r@ == spec_dedup(batch@),
{
    let mut input = batch;
    let ghost orig = input@;
    let mut result: Vec<ADOsascriptResponse> = Vec::new();
    let mut taken: usize = 0;
    let batch_len = input.len();
    proof {
        assert(orig.len() == batch_len);
        assert(orig.subrange(0, orig.len() as int) =~= orig);
        assert(orig.subrange(0, 0) =~= Seq::<ADOsascriptResponse>::empty());
    }
    while input.len() > 0
        invariant
            input@ == orig.subrange(taken as int, orig.len() as int),
            taken <= orig.len(),
            orig.len() <= usize::MAX,
            result@ == spec_dedup(orig.subrange(0, taken as int)),
        decreases input@.len(),
    {
        let rec = input.remove(0);
        let keep = !batch_has_album(&result, &rec);
        proof {
            let upto = orig.subrange(0, taken as int + 1);
            assert(upto.drop_last() =~= orig.subrange(0, taken as int));
            assert(upto.last() == rec);
            assert(input@ =~= orig.subrange(taken as int + 1, orig.len() as int));
        }
        if keep {
            result.push(rec);
        }
        taken = taken + 1;
    }
    proof {
        assert(orig.subrange(0, orig.len() as int) =~= orig);
    }
    result
}

/// A record's metadata together with the path its artwork is cached under;
/// unlike a full album resource it carries no image, so it can cross
/// threads.
pub struct BaseAlbumResources {
    pub album: String,
    pub album_artist: String,
    pub artwork_file_path: String,
}

/// What data_encoding's BASE64URL_NOPAD encoding returns for the UTF-8
/// bytes of a string: a function of the characters alone.
pub uninterp spec fn base64url_of(s: Seq<char>) -> Seq<char>;

/// Relies on data_encoding::BASE64URL_NOPAD.encode: unpadded URL-safe
/// base64 of the string's bytes, empty exactly for empty input.
#[verifier::external_body]
fn base64url_encode(s: &str) -> (r: String)
    requires
        s@.len() <= 2_000_000,
    ensures
        r@ == base64url_of(s@),
        s@.len() == 0 ==> r@.len() == 0,
{
    data_encoding::BASE64URL_NOPAD.encode(s.as_bytes())
}

/// The cache file name a record's artwork is stored under.
pub open spec fn artwork_cache_path(dir: Seq<char>, album_artist: Seq<char>, album: Seq<char>)
    -> Seq<char> {
    dir + "/"@ + base64url_of(album_artist + album) + ".png"@
}

impl BaseAlbumResources {
    /// Builds the thread-safe half of an album's resources: its metadata
    /// and the cache path derived from artist and album name. The caller
    /// stores the response's artwork bytes under that path.
    pub fn build(response: &ADOsascriptResponse, artwork_cache_dir: &str) -> (r:
        BaseAlbumResources)
        requires
            response.album_artist@.len() + response.album@.len() <= 2_000_000,
        ensures
            r.album@ == response.album@,
            r.album_artist@ == response.album_artist@,
            r.artwork_file_path@ == artwork_cache_path(
                artwork_cache_dir@,
                response.album_artist@,
                response.album@,
            ),
    {
        let mut key: String = response.album_artist.clone();
        key.append(response.album.as_str());
        let encoded = base64url_encode(key.as_str());
        let mut path: String = artwork_cache_dir.to_owned();
        path.append("/");
        path.append(encoded.as_str());
        path.append(".png");
        BaseAlbumResources {
            album: response.album.clone(),
            album_artist: response.album_artist.clone(),
            artwork_file_path: path,
        }
    }
}

/// Relies on rand::seq::SliceRandom::shuffle with rand::rng(): an in-place
/// permutation of the slice, so the records are rearranged and none is
/// added or lost.
#[verifier::external_body]
pub(crate) fn shuffle_indices(v: &mut Vec<usize>)
    ensures
        final(v)@.to_multiset() == old(v)@.to_multiset(),
        final(v)@.len() == old(v)@.len(),
{
    v.shuffle(&mut rand::rng());
}

} // verus!
