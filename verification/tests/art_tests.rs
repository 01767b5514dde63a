use mpd_discord_rpc::art::ArtCache;
use mpd_discord_rpc::art::ArtQuery;
use mpd_discord_rpc::art::RecordKind;
use mpd_discord_rpc::art::ReleaseInfo;
use mpd_discord_rpc::art::classify_release;
use mpd_discord_rpc::art::cover_art_url;
use mpd_discord_rpc::art::get_cache_key;
use mpd_discord_rpc::art::plan_art_lookup;
use mpd_discord_rpc::art::record_art_result;
use mpd_discord_rpc::art::release_url;
use mpd_discord_rpc::art::search_url;
use mpd_discord_rpc::player::Track;

fn tagged_track(artist: &str, album: &str, release_id: Option<&str>) -> Track {
    Track {
        title: Some(String::from("Song")),
        artist: vec![String::from(artist)],
        album: vec![String::from(album)],
        album_artist: vec![],
        date: vec![],
        disc: vec![],
        genre: vec![],
        track_number: vec![],
        release_id: release_id.map(String::from).into_iter().collect(),
    }
}

fn untagged_track() -> Track {
    Track {
        title: None,
        artist: vec![],
        album: vec![],
        album_artist: vec![],
        date: vec![],
        disc: vec![],
        genre: vec![],
        track_number: vec![],
        release_id: vec![],
    }
}

#[test]
fn cache_key_needs_both_artist_and_album() {
    assert_eq!(
        get_cache_key(&tagged_track("A", "B", None)),
        Some((String::from("A"), String::from("B")))
    );
    assert_eq!(get_cache_key(&untagged_track()), None);
    let mut only_artist = untagged_track();
    only_artist.artist = vec![String::from("A")];
    assert_eq!(get_cache_key(&only_artist), None);
}

#[test]
fn second_resolution_for_the_same_pair_is_served_from_cache() {
    let mut cache = ArtCache::new();
    let track = tagged_track("A", "B", None);

    // first resolution: a cache miss goes out to the search endpoint
    let mut network_requests = 0;
    match plan_art_lookup(&cache, &track) {
        ArtQuery::SearchGroup { artist, album } => {
            network_requests += 1;
            assert_eq!(artist, "A");
            assert_eq!(album, "B");
            let url = record_art_result(
                &mut cache,
                artist,
                album,
                String::from("rg-1"),
                RecordKind::ReleaseGroup,
            );
            assert_eq!(url, "https://coverartarchive.org/release-group/rg-1/front-250");
        }
        _ => panic!("first lookup must search"),
    }

    // second resolution with the identical pair: no network request
    match plan_art_lookup(&cache, &tagged_track("A", "B", None)) {
        ArtQuery::Cached { id, kind } => {
            assert_eq!(id, "rg-1");
            assert_eq!(kind, RecordKind::ReleaseGroup);
        }
        _ => panic!("second lookup must hit the cache"),
    }
    assert_eq!(network_requests, 1);
}

#[test]
fn embedded_release_identifier_is_preferred_over_search() {
    let cache = ArtCache::new();
    let track = tagged_track("A", "B", Some("rel-9"));
    match plan_art_lookup(&cache, &track) {
        ArtQuery::LookupRelease { release_id } => assert_eq!(release_id, "rel-9"),
        _ => panic!("a track with an embedded release identifier must look it up directly"),
    }
}

#[test]
fn track_without_key_is_uncacheable() {
    let cache = ArtCache::new();
    assert!(matches!(plan_art_lookup(&cache, &untagged_track()), ArtQuery::Uncacheable));
}

#[test]
fn release_with_front_cover_resolves_to_itself() {
    let info = ReleaseInfo {
        id: String::from("rel-1"),
        release_group_id: String::from("rg-1"),
        has_front_cover: true,
    };
    let (id, kind) = classify_release(info);
    assert_eq!(id, "rel-1");
    assert_eq!(kind, RecordKind::Release);
}

#[test]
fn release_without_front_cover_falls_back_to_its_group() {
    let info = ReleaseInfo {
        id: String::from("rel-1"),
        release_group_id: String::from("rg-1"),
        has_front_cover: false,
    };
    let (id, kind) = classify_release(info);
    assert_eq!(id, "rg-1");
    assert_eq!(kind, RecordKind::ReleaseGroup);
}

#[test]
fn cache_distinguishes_pairs() {
    let mut cache = ArtCache::new();
    record_art_result(
        &mut cache,
        String::from("A"),
        String::from("B"),
        String::from("rg-1"),
        RecordKind::ReleaseGroup,
    );
    assert!(cache.lookup("A", "B").is_some());
    assert!(cache.lookup("A", "C").is_none());
    assert!(cache.lookup("B", "A").is_none());
    // a different pair still goes out to the network
    match plan_art_lookup(&cache, &tagged_track("A", "C", None)) {
        ArtQuery::SearchGroup { .. } => {}
        _ => panic!("an uncached pair must search"),
    }
}

#[test]
fn newer_record_shadows_older_one() {
    let mut cache = ArtCache::new();
    record_art_result(
        &mut cache,
        String::from("A"),
        String::from("B"),
        String::from("old"),
        RecordKind::ReleaseGroup,
    );
    record_art_result(
        &mut cache,
        String::from("A"),
        String::from("B"),
        String::from("new"),
        RecordKind::Release,
    );
    let (id, kind) = cache.lookup("A", "B").unwrap();
    assert_eq!(id, "new");
    assert_eq!(kind, RecordKind::Release);
}

#[test]
fn service_urls_have_the_documented_shape() {
    assert_eq!(
        cover_art_url(RecordKind::Release, "rel-1"),
        "https://coverartarchive.org/release/rel-1/front-250"
    );
    assert_eq!(
        cover_art_url(RecordKind::ReleaseGroup, "rg-1"),
        "https://coverartarchive.org/release-group/rg-1/front-250"
    );
    assert_eq!(
        release_url("rel-1"),
        "https://musicbrainz.org/ws/2/release/rel-1?inc=release-groups"
    );
    assert_eq!(
        search_url("A", "B"),
        "https://musicbrainz.org/ws/2/release-group/?query=artist:A AND release:B&limit=1"
    );
}
