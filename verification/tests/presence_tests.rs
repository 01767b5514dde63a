use mpd_discord_rpc::config::Config;
use mpd_discord_rpc::config::Format;
use mpd_discord_rpc::config::TimestampMode;
use mpd_discord_rpc::host::Endpoint;
use mpd_discord_rpc::host::IDLE_TIME;
use mpd_discord_rpc::host::SweepStep;
use mpd_discord_rpc::host::classify_endpoint;
use mpd_discord_rpc::host::sweep_step;
use mpd_discord_rpc::player::PlayState;
use mpd_discord_rpc::player::PlayerStatus;
use mpd_discord_rpc::player::Track;
use mpd_discord_rpc::presence::PresenceCommand;
use mpd_discord_rpc::presence::ServiceAction;
use mpd_discord_rpc::presence::ServiceEvent;
use mpd_discord_rpc::presence::Subsystem;
use mpd_discord_rpc::presence::Tokens;
use mpd_discord_rpc::presence::handle_service_event;
use mpd_discord_rpc::presence::is_relevant_change;
use mpd_discord_rpc::presence::should_forward_presence_error;
use mpd_discord_rpc::presence::should_log_activity_error;
use mpd_discord_rpc::presence::update_state;

fn scenario_format() -> Format {
    Format {
        details: String::from("$title"),
        state: String::from("$artist / $album"),
        timestamp: TimestampMode::Elapsed,
        large_image: String::from("notes"),
        small_image: String::from(""),
        large_text: String::from(""),
        small_text: String::from(""),
    }
}

fn scenario_track() -> Track {
    Track {
        title: Some(String::from("Song")),
        artist: vec![String::from("A")],
        album: vec![String::from("B")],
        album_artist: vec![],
        date: vec![],
        disc: vec![],
        genre: vec![],
        track_number: vec![],
        release_id: vec![],
    }
}

#[test]
fn playing_track_renders_one_activity() {
    let format = scenario_format();
    let tokens = Tokens::from_format(&format);
    let status = PlayerStatus { state: PlayState::Playing, elapsed: Some(65), duration: Some(185) };
    let track = scenario_track();
    let now = 1000;
    match update_state(&format, &tokens, &status, Some(&track), now, None) {
        PresenceCommand::SetActivity(activity) => {
            assert_eq!(activity.details, "Song");
            assert_eq!(activity.state, "A / B");
            assert_eq!(activity.timestamps.start, Some(now - 65));
            assert_eq!(activity.timestamps.end, None);
            assert_eq!(activity.large_image.as_deref(), Some("notes"));
            assert_eq!(activity.small_image, None);
            assert_eq!(activity.large_text, None);
            assert_eq!(activity.small_text, None);
        }
        _ => panic!("a playing track must produce an activity"),
    }
}

#[test]
fn resolved_art_takes_the_large_image_slot() {
    let format = scenario_format();
    let tokens = Tokens::from_format(&format);
    let status = PlayerStatus { state: PlayState::Playing, elapsed: Some(65), duration: Some(185) };
    let track = scenario_track();
    let url = String::from("https://coverartarchive.org/release/rel-1/front-250");
    match update_state(&format, &tokens, &status, Some(&track), 1000, Some(url.clone())) {
        PresenceCommand::SetActivity(activity) => {
            assert_eq!(activity.large_image, Some(url));
        }
        _ => panic!("a playing track must produce an activity"),
    }
}

#[test]
fn stop_yields_exactly_one_clear_and_a_new_sweep() {
    let format = scenario_format();
    let tokens = Tokens::from_format(&format);
    let track = scenario_track();

    // while playing: one activity per change event, never a clear
    let playing =
        PlayerStatus { state: PlayState::Playing, elapsed: Some(65), duration: Some(185) };
    assert!(matches!(
        update_state(&format, &tokens, &playing, Some(&track), 1000, None),
        PresenceCommand::SetActivity(_)
    ));

    // the transition to stopped yields the one clear command
    let stopped = PlayerStatus { state: PlayState::Stopped, elapsed: None, duration: None };
    let mut clears = 0;
    match update_state(&format, &tokens, &stopped, None, 1001, None) {
        PresenceCommand::ClearActivity => clears += 1,
        _ => panic!("a stopped player must clear the activity"),
    }
    assert_eq!(clears, 1);

    // after the clear the orchestrator re-enters the endpoint sweep
    assert_eq!(sweep_step(2, 0, false), SweepStep::Next { index: 1 });
    assert_eq!(sweep_step(2, 1, false), SweepStep::Sleep);
    assert_eq!(sweep_step(2, 0, true), SweepStep::Use { index: 0 });
}

#[test]
fn paused_player_also_clears() {
    let format = scenario_format();
    let tokens = Tokens::from_format(&format);
    let paused = PlayerStatus { state: PlayState::Paused, elapsed: Some(5), duration: Some(10) };
    assert!(matches!(
        update_state(&format, &tokens, &paused, Some(&scenario_track()), 1000, None),
        PresenceCommand::ClearActivity
    ));
}

#[test]
fn playing_without_a_track_changes_nothing() {
    let format = scenario_format();
    let tokens = Tokens::from_format(&format);
    let playing = PlayerStatus { state: PlayState::Playing, elapsed: Some(5), duration: Some(10) };
    assert!(matches!(
        update_state(&format, &tokens, &playing, None, 1000, None),
        PresenceCommand::Skip
    ));
}

#[test]
fn empty_large_image_is_omitted() {
    let mut format = scenario_format();
    format.large_image = String::from("");
    let tokens = Tokens::from_format(&format);
    let playing = PlayerStatus { state: PlayState::Playing, elapsed: Some(5), duration: Some(10) };
    match update_state(&format, &tokens, &playing, Some(&scenario_track()), 1000, None) {
        PresenceCommand::SetActivity(activity) => {
            assert_eq!(activity.large_image, None);
        }
        _ => panic!("a playing track must produce an activity"),
    }
}

#[test]
fn nonempty_tooltips_are_rendered() {
    let mut format = scenario_format();
    format.large_text = String::from("$album");
    format.small_text = String::from("$artist");
    format.small_image = String::from("mini");
    let tokens = Tokens::from_format(&format);
    let playing = PlayerStatus { state: PlayState::Playing, elapsed: Some(5), duration: Some(10) };
    match update_state(&format, &tokens, &playing, Some(&scenario_track()), 1000, None) {
        PresenceCommand::SetActivity(activity) => {
            assert_eq!(activity.large_text.as_deref(), Some("B"));
            assert_eq!(activity.small_text.as_deref(), Some("A"));
            assert_eq!(activity.small_image.as_deref(), Some("mini"));
        }
        _ => panic!("a playing track must produce an activity"),
    }
}

#[test]
fn ready_event_triggers_a_refresh() {
    assert_eq!(handle_service_event(&ServiceEvent::Ready), ServiceAction::Refresh);
}

#[test]
fn error_event_triggers_a_presence_restart() {
    let event = ServiceEvent::Error { message: String::from("Io Err") };
    assert_eq!(handle_service_event(&event), ServiceAction::RestartPresence);
}

#[test]
fn only_io_errors_are_forwarded() {
    assert!(should_forward_presence_error("Io Err"));
    assert!(!should_forward_presence_error("some other error"));
    assert!(!should_forward_presence_error(""));
}

#[test]
fn benign_buttons_complaint_is_not_logged() {
    assert!(!should_log_activity_error("missing field `buttons` at line 1 column 2"));
    assert!(should_log_activity_error("connection reset"));
}

#[test]
fn only_player_and_queue_changes_refresh() {
    assert!(is_relevant_change(Subsystem::Player));
    assert!(is_relevant_change(Subsystem::Queue));
    assert!(!is_relevant_change(Subsystem::Other));
}

#[test]
fn endpoints_classify_by_socket_check() {
    match classify_endpoint(String::from("/run/mpd/socket"), true) {
        Endpoint::Local { path } => assert_eq!(path, "/run/mpd/socket"),
        _ => panic!("an existing socket file is a local endpoint"),
    }
    match classify_endpoint(String::from("localhost:6600"), false) {
        Endpoint::Network { address } => assert_eq!(address, "localhost:6600"),
        _ => panic!("anything else is a network endpoint"),
    }
}

#[test]
fn configuration_defaults() {
    let config = Config::default();
    assert_eq!(config.id, 677226551607033903);
    assert_eq!(config.hosts, vec![String::from("localhost:6600")]);
    assert_eq!(config.format.details, "$title");
    assert_eq!(config.format.state, "$artist / $album");
    assert!(matches!(config.format.timestamp, TimestampMode::Both));
    assert_eq!(config.format.large_image, "notes");
    assert_eq!(config.format.small_image, "notes");
    assert_eq!(config.format.large_text, "");
    assert_eq!(config.format.small_text, "");
    assert_eq!(IDLE_TIME, 5);
}
