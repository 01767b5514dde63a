use mpd_discord_rpc::config::TimestampMode;
use mpd_discord_rpc::player::PlayState;
use mpd_discord_rpc::player::PlayerStatus;
use mpd_discord_rpc::timestamp::get_timestamp;

fn playing(elapsed: Option<u64>, duration: Option<u64>) -> PlayerStatus {
    PlayerStatus { state: PlayState::Playing, elapsed, duration }
}

#[test]
fn both_mode_anchors_start_and_end() {
    let status = playing(Some(30), Some(180));
    let ts = get_timestamp(&status, TimestampMode::Both, 1000);
    assert_eq!(ts.start, Some(970));
    assert_eq!(ts.end, Some(1150));
}

#[test]
fn left_mode_anchors_end_only() {
    let status = playing(Some(30), Some(180));
    let ts = get_timestamp(&status, TimestampMode::Left, 1000);
    assert_eq!(ts.start, None);
    assert_eq!(ts.end, Some(1150));
}

#[test]
fn elapsed_mode_anchors_start_only() {
    let status = playing(Some(30), Some(180));
    let ts = get_timestamp(&status, TimestampMode::Elapsed, 1000);
    assert_eq!(ts.start, Some(970));
    assert_eq!(ts.end, None);
}

#[test]
fn off_mode_yields_nothing() {
    let status = playing(Some(30), Some(180));
    let ts = get_timestamp(&status, TimestampMode::Off, 1000);
    assert_eq!(ts.start, None);
    assert_eq!(ts.end, None);
}

#[test]
fn missing_elapsed_yields_nothing_in_every_mode() {
    let status = playing(None, Some(180));
    for mode in [
        TimestampMode::Elapsed,
        TimestampMode::Left,
        TimestampMode::Off,
        TimestampMode::Both,
    ] {
        let ts = get_timestamp(&status, mode, 1000);
        assert_eq!(ts.start, None);
        assert_eq!(ts.end, None);
    }
}

#[test]
fn missing_duration_yields_nothing_when_a_mode_needs_it() {
    let status = playing(Some(30), None);
    let ts = get_timestamp(&status, TimestampMode::Left, 1000);
    assert_eq!(ts.start, None);
    assert_eq!(ts.end, None);
    let ts = get_timestamp(&status, TimestampMode::Both, 1000);
    assert_eq!(ts.start, None);
    assert_eq!(ts.end, None);
    // the elapsed-only mode needs no duration
    let ts = get_timestamp(&status, TimestampMode::Elapsed, 1000);
    assert_eq!(ts.start, Some(970));
    assert_eq!(ts.end, None);
}
