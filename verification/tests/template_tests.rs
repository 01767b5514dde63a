use mpd_discord_rpc::player::PlayState;
use mpd_discord_rpc::player::PlayerStatus;
use mpd_discord_rpc::player::Track;
use mpd_discord_rpc::player::try_get_first_tag;
use mpd_discord_rpc::strings::clamp;
use mpd_discord_rpc::template::extract_tokens;
use mpd_discord_rpc::template::format_time;
use mpd_discord_rpc::template::get_token_value;
use mpd_discord_rpc::template::replace_tokens;

fn sample_track() -> Track {
    Track {
        title: Some(String::from("Song")),
        artist: vec![String::from("A")],
        album: vec![String::from("B")],
        album_artist: vec![],
        date: vec![String::from("2001")],
        disc: vec![],
        genre: vec![],
        track_number: vec![String::from("7")],
        release_id: vec![],
    }
}

fn sample_status() -> PlayerStatus {
    PlayerStatus { state: PlayState::Playing, elapsed: Some(65), duration: Some(185) }
}

#[test]
fn extract_tokens_in_order_without_duplicates() {
    let toks = extract_tokens("$artist / $album");
    assert_eq!(toks, vec![String::from("artist"), String::from("album")]);
}

#[test]
fn extract_tokens_drops_repeats() {
    let toks = extract_tokens("$a $b $a $a $c $b");
    assert_eq!(toks, vec![String::from("a"), String::from("b"), String::from("c")]);
}

#[test]
fn extract_tokens_ignores_bare_dollar() {
    let toks = extract_tokens("100$ $ $x");
    assert_eq!(toks, vec![String::from("x")]);
}

#[test]
fn extract_tokens_empty_template() {
    let toks = extract_tokens("");
    assert!(toks.is_empty());
}

#[test]
fn format_time_pads_minutes_and_seconds() {
    assert_eq!(format_time(125), "02:05");
    assert_eq!(format_time(0), "00:00");
    assert_eq!(format_time(59), "00:59");
    assert_eq!(format_time(60), "01:00");
}

#[test]
fn format_time_wraps_at_one_hour() {
    assert_eq!(format_time(3661), "01:01");
    assert_eq!(format_time(3600), "00:00");
}

#[test]
fn token_values_from_track_and_status() {
    let track = sample_track();
    let status = sample_status();
    assert_eq!(get_token_value(&track, &status, "title"), "Song");
    assert_eq!(get_token_value(&track, &status, "artist"), "A");
    assert_eq!(get_token_value(&track, &status, "album"), "B");
    assert_eq!(get_token_value(&track, &status, "date"), "2001");
    assert_eq!(get_token_value(&track, &status, "track"), "7");
    assert_eq!(get_token_value(&track, &status, "duration"), "03:05");
    assert_eq!(get_token_value(&track, &status, "elapsed"), "01:05");
}

#[test]
fn token_values_fall_back_for_missing_data() {
    let track = Track {
        title: None,
        artist: vec![],
        album: vec![],
        album_artist: vec![],
        date: vec![],
        disc: vec![],
        genre: vec![],
        track_number: vec![],
        release_id: vec![],
    };
    let status = PlayerStatus { state: PlayState::Stopped, elapsed: None, duration: None };
    assert_eq!(get_token_value(&track, &status, "title"), "unknown");
    assert_eq!(get_token_value(&track, &status, "artist"), "unknown");
    assert_eq!(get_token_value(&track, &status, "albumartist"), "unknown");
    assert_eq!(get_token_value(&track, &status, "duration"), "N/A");
    assert_eq!(get_token_value(&track, &status, "elapsed"), "N/A");
}

#[test]
fn unrecognized_token_echoes_its_name() {
    let track = sample_track();
    let status = sample_status();
    assert_eq!(get_token_value(&track, &status, "bogus"), "bogus");
}

#[test]
fn render_substitutes_all_known_tokens() {
    let track = sample_track();
    let status = sample_status();
    let template = "$artist / $album";
    let tokens = extract_tokens(template);
    let rendered = replace_tokens(template, &tokens, &track, &status);
    assert_eq!(rendered, "A / B");
    assert!(!rendered.contains('$'));
}

#[test]
fn render_is_deterministic() {
    let track = sample_track();
    let status = sample_status();
    let template = "$title - $elapsed/$duration";
    let tokens = extract_tokens(template);
    let first = replace_tokens(template, &tokens, &track, &status);
    let second = replace_tokens(template, &tokens, &track, &status);
    assert_eq!(first, second);
    assert_eq!(first, "Song - 01:05/03:05");
}

#[test]
fn render_replaces_each_token_once_in_extraction_order() {
    let mut track = sample_track();
    track.title = Some(String::from("$artist"));
    let status = sample_status();
    let template = "$title";
    let tokens = extract_tokens(template);
    let rendered = replace_tokens(template, &tokens, &track, &status);
    // the substituted value is not scanned again
    assert_eq!(rendered, "$artist");
}

#[test]
fn try_get_first_tag_reads_only_the_first_value() {
    let values = vec![String::from("one"), String::from("two")];
    assert_eq!(try_get_first_tag(Some(&values)), Some("one"));
    let empty: Vec<String> = vec![];
    assert_eq!(try_get_first_tag(Some(&empty)), None);
    assert_eq!(try_get_first_tag(None), None);
}

#[test]
fn clamp_returns_short_strings_unchanged() {
    let s = String::from("short");
    assert_eq!(clamp(s, 128), "short");
    let exact = "x".repeat(128);
    assert_eq!(clamp(exact.clone(), 128), exact);
}

#[test]
fn clamp_truncates_long_strings_with_ellipsis() {
    let long = "x".repeat(200);
    let clamped = clamp(long, 128);
    assert_eq!(clamped.len(), 128);
    assert!(clamped.ends_with("..."));
    assert_eq!(clamped, format!("{}...", "x".repeat(125)));
}

#[test]
fn clamp_counts_bytes_not_characters() {
    // two bytes per character: 100 characters are 200 bytes
    let long = "\u{e9}".repeat(100);
    let clamped = clamp(long, 128);
    assert!(clamped.len() <= 128);
    assert!(clamped.ends_with("..."));
    // 62 two-byte characters are 124 bytes, the most that fit in 125
    assert_eq!(clamped, format!("{}...", "\u{e9}".repeat(62)));
}
