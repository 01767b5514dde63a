//! The cover-art resolver's decision logic: the per-(artist, album)
//! memoization cache, the choice between a direct release lookup and a
//! search, the classification of a fetched release, and the URL shapes
//! of the metadata and cover-art services. The network calls themselves
//! are the host program's business; it feeds their outcomes back in.

use vstd::prelude::*;
use vstd::string::StringExecFns;

use crate::player::Track;
use crate::player::try_get_first_tag;
use crate::strings::str_eq;

verus! {

/// Whether a cached record points at one specific release or at its
/// broader release group.
#[derive(Clone, Copy, PartialEq, Eq, Structural, Debug)]
pub enum RecordKind {
    Release,
    ReleaseGroup,
}

impl RecordKind {
    /// The URL path segment the cover-art service uses for this kind.
    pub open spec fn segment_spec(self) -> Seq<char> {
        match self {
            RecordKind::Release => ("release")@,
            RecordKind::ReleaseGroup => ("release-group")@,
        }
    }

    pub fn path_segment(self) -> (r: &'static str)
        ensures
            r@ == self.segment_spec(),
    {
        match self {
            RecordKind::Release => "release",
            RecordKind::ReleaseGroup => "release-group",
        }
    }
}

/// What a release lookup on the metadata service reports, parsed into
/// plain values: the release's identifier, the identifier of its release
/// group, and whether front cover art is archived for the release.
#[derive(Clone, Debug)]
pub struct ReleaseInfo {
    pub id: String,
    pub release_group_id: String,
    pub has_front_cover: bool,
}

struct ArtCacheEntry {
    artist: String,
    album: String,
    id: String,
    kind: RecordKind,
}

/// The memoization cache of the art resolver, keyed by the
/// (artist, album) pair. It grows for the life of the process; the key
/// space is bounded by what is actually listened to in one session.
pub struct ArtCache {
    entries: Vec<ArtCacheEntry>,
}

impl ArtCache {
    spec fn find_spec(
        entries: Seq<ArtCacheEntry>,
        artist: Seq<char>,
        album: Seq<char>,
    ) -> Option<(Seq<char>, RecordKind)>
        decreases entries.len(),
    {
        if entries.len() == 0 {
            None
        } else if entries[0].artist@ == artist && entries[0].album@ == album {
            Some((entries[0].id@, entries[0].kind))
        } else {
            Self::find_spec(entries.drop_first(), artist, album)
        }
    }

    /// The record this cache holds for an (artist, album) pair, if any.
    pub closed spec fn cached(self, artist: Seq<char>, album: Seq<char>) -> Option<
        (Seq<char>, RecordKind),
    > {
        Self::find_spec(self.entries@, artist, album)
    }

    /// An empty cache: every run starts cold.
    pub fn new() -> (r: Self)
        ensures
            forall|a: Seq<char>, b: Seq<char>| r.cached(a, b) is None,
    {
        ArtCache { entries: Vec::new() }
    }

    /// Looks the pair up without touching the cache contents.
    pub fn lookup(&self, artist: &str, album: &str) -> (r: Option<(String, RecordKind)>)
        ensures
            r is Some <==> self.cached(artist@, album@) is Some,
            r is Some ==> self.cached(artist@, album@) == Some(
                (r.unwrap().0@, r.unwrap().1),
            ),
    {
        let n = self.entries.len();
        let mut i: usize = 0;
        proof {
            assert(self.entries@.skip(0) =~= self.entries@);
        }
        while i < n
            invariant
                i <= n,
                n == self.entries@.len(),
                Self::find_spec(self.entries@, artist@, album@) == Self::find_spec(
                    self.entries@.skip(i as int),
                    artist@,
                    album@,
                ),
            decreases n - i,
        {
            let e = &self.entries[i];
            if str_eq(e.artist.as_str(), artist) && str_eq(e.album.as_str(), album) {
                return Some((e.id.clone(), e.kind));
            }
            proof {
                assert(self.entries@.skip(i as int).drop_first() =~= self.entries@.skip(
                    i as int + 1,
                ));
                assert(self.entries@.skip(i as int)[0] == self.entries@[i as int]);
            }
            i = i + 1;
        }
        proof {
            assert(self.entries@.skip(n as int).len() == 0);
        }
        None
    }

    /// Records a resolved record for the pair, shadowing any older entry.
    pub fn insert(&mut self, artist: String, album: String, id: String, kind: RecordKind)
        ensures
            final(self).cached(artist@, album@) == Some((id@, kind)),
            forall|a: Seq<char>, b: Seq<char>|
                !(a == artist@ && b == album@) ==> final(self).cached(a, b) == old(self).cached(
                    a,
                    b,
                ),
    {
        let ghost old_entries = self.entries@;
        let entry = ArtCacheEntry { artist, album, id, kind };
        self.entries.insert(0, entry);
        proof {
            assert(self.entries@.drop_first() =~= old_entries);
            assert forall|a: Seq<char>, b: Seq<char>|
                !(a == entry.artist@ && b == entry.album@) implies Self::find_spec(
                self.entries@,
                a,
                b,
            ) == Self::find_spec(old_entries, a, b) by {
                assert(self.entries@[0] == entry);
            }
        }
    }
}

/// The cache key of a track: its first artist and first album tag
/// values. A track missing either is uncacheable.
pub open spec fn cache_key_spec(track: Track) -> Option<(Seq<char>, Seq<char>)> {
    if track.artist@.len() > 0 && track.album@.len() > 0 {
        Some((track.artist@[0]@, track.album@[0]@))
    } else {
        None
    }
}

/// Computes the cache key from the track's artist and album tags.
pub fn get_cache_key(track: &Track) -> (r: Option<(String, String)>)
    ensures
        r is Some <==> cache_key_spec(*track) is Some,
        r is Some ==> cache_key_spec(*track) == Some((r.unwrap().0@, r.unwrap().1@)),
{
    let artist = try_get_first_tag(Some(&track.artist));
    let album = try_get_first_tag(Some(&track.album));
    match (artist, album) {
        (Some(artist), Some(album)) => Some(
            (String::from_str(artist), String::from_str(album)),
        ),
        _ => None,
    }
}

/// The next step of one art resolution: serve the cached record, look a
/// specific release up by its embedded identifier, search by artist and
/// album, or give up on an uncacheable track.
pub enum ArtQuery {
    Cached { id: String, kind: RecordKind },
    LookupRelease { release_id: String },
    SearchGroup { artist: String, album: String },
    Uncacheable,
}

/// Whether resolving this track's art would touch the network: only an
/// uncached track with a usable (artist, album) pair does.
pub open spec fn needs_network(cache: ArtCache, track: Track) -> bool {
    match cache_key_spec(track) {
        None => false,
        Some(k) => cache.cached(k.0, k.1) is None,
    }
}

/// Decides the next step of resolving this track's cover art: the cache
/// is consulted first; only a miss goes out to the metadata service, by
/// the embedded release identifier when the track carries one, else by
/// an artist/album search.
pub fn plan_art_lookup(cache: &ArtCache, track: &Track) -> (r: ArtQuery)
    ensures
        (r is LookupRelease || r is SearchGroup) <==> needs_network(*cache, *track),
        r is Uncacheable <==> cache_key_spec(*track) is None,
        r matches ArtQuery::Cached { id, kind } ==> cache_key_spec(*track) is Some && cache.cached(
            cache_key_spec(*track).unwrap().0,
            cache_key_spec(*track).unwrap().1,
        ) == Some((id@, kind)),
        r matches ArtQuery::LookupRelease { release_id } ==> track.release_id@.len() > 0
            && release_id@ == track.release_id@[0]@,
        r is SearchGroup ==> track.release_id@.len() == 0,
        r matches ArtQuery::SearchGroup { artist, album } ==> cache_key_spec(*track) == Some(
            (artist@, album@),
        ),
{
    let key = match get_cache_key(track) {
        Some(k) => k,
        None => {
            return ArtQuery::Uncacheable;
        },
    };
    if let Some((id, kind)) = cache.lookup(key.0.as_str(), key.1.as_str()) {
        return ArtQuery::Cached { id, kind };
    }
    match try_get_first_tag(Some(&track.release_id)) {
        Some(release_id) => ArtQuery::LookupRelease { release_id: String::from_str(release_id) },
        None => ArtQuery::SearchGroup { artist: key.0, album: key.1 },
    }
}

/// What a fetched release resolves to: the release itself when its front
/// cover is archived, otherwise its release group.
pub open spec fn classify_release_spec(info: ReleaseInfo) -> (Seq<char>, RecordKind) {
    if info.has_front_cover {
        (info.id@, RecordKind::Release)
    } else {
        (info.release_group_id@, RecordKind::ReleaseGroup)
    }
}

/// Classifies a release fetched from the metadata service.
pub fn classify_release(info: ReleaseInfo) -> (r: (String, RecordKind))
    ensures
        (r.0@, r.1) == classify_release_spec(info),
{
    if info.has_front_cover {
        (info.id, RecordKind::Release)
    } else {
        (info.release_group_id, RecordKind::ReleaseGroup)
    }
}

/// The URL of a record's front cover on the cover-art service.
pub open spec fn cover_art_url_spec(kind: RecordKind, id: Seq<char>) -> Seq<char> {
    ("https://coverartarchive.org/")@ + kind.segment_spec() + ("/")@ + id + ("/front-250")@
}

/// Builds the front-cover URL for a resolved record.
pub fn cover_art_url(kind: RecordKind, id: &str) -> (r: String)
    ensures
        r@ == cover_art_url_spec(kind, id@),
{
    let mut url = String::from_str("https://coverartarchive.org/");
    url.append(kind.path_segment());
    url.append("/");
    url.append(id);
    url.append("/front-250");
    url
}

/// The metadata-service URL that looks one release up by its identifier,
/// asking for its release group as well.
pub open spec fn release_url_spec(release_id: Seq<char>) -> Seq<char> {
    ("https://musicbrainz.org/ws/2/release/")@ + release_id + ("?inc=release-groups")@
}

/// Builds the release-lookup URL for the metadata service.
pub fn release_url(release_id: &str) -> (r: String)
    ensures
        r@ == release_url_spec(release_id@),
{
    let mut url = String::from_str("https://musicbrainz.org/ws/2/release/");
    url.append(release_id);
    url.append("?inc=release-groups");
    url
}

/// The metadata-service URL that searches release groups by artist and
/// album, asking for the first result only.
pub open spec fn search_url_spec(artist: Seq<char>, album: Seq<char>) -> Seq<char> {
    ("https://musicbrainz.org/ws/2/release-group/?query=artist:")@ + artist + (" AND release:")@
        + album + ("&limit=1")@
}

/// Builds the release-group search URL for the metadata service.
pub fn search_url(artist: &str, album: &str) -> (r: String)
    ensures
        r@ == search_url_spec(artist@, album@),
{
    let mut url = String::from_str("https://musicbrainz.org/ws/2/release-group/?query=artist:");
    url.append(artist);
    url.append(" AND release:");
    url.append(album);
    url.append("&limit=1");
    url
}

/// Records the outcome of one network resolution for the track's pair
/// and hands back the cover URL derived from it.
pub fn record_art_result(
    cache: &mut ArtCache,
    artist: String,
    album: String,
    id: String,
    kind: RecordKind,
) -> (r: String)
    ensures
        r@ == cover_art_url_spec(kind, id@),
        final(cache).cached(artist@, album@) == Some((id@, kind)),
        forall|a: Seq<char>, b: Seq<char>|
            !(a == artist@ && b == album@) ==> final(cache).cached(a, b) == old(cache).cached(
                a,
                b,
            ),
{
    let url = cover_art_url(kind, id.as_str());
    cache.insert(artist, album, id, kind);
    url
}

/// Two resolutions with the same (artist, album) pair reach the network
/// at most once: once a record is cached for the pair — as recording the
/// first resolution's outcome does — resolving any track that carries
/// the same pair is served from the cache and issues no network request.
pub proof fn lemma_second_resolution_is_cached(
    cache: ArtCache,
    second: Track,
    artist: Seq<char>,
    album: Seq<char>,
)
    requires
        cache.cached(artist, album) is Some,
        cache_key_spec(second) == Some((artist, album)),
    ensures
        !needs_network(cache, second),
{
}

} // verus!
