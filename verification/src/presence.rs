//! The orchestrator's decision logic: turning one observed player state
//! into the presence command to push (set, clear, or nothing), and
//! classifying the asynchronous events of the presence service. The
//! event loop itself, the player connection and the presence transport
//! are the host program's business.

use vstd::prelude::*;
use vstd::string::StringExecFns;

use crate::config::Format;
use crate::player::PlayState;
use crate::player::PlayerStatus;
use crate::player::Track;
use crate::strings::clamp;
use crate::strings::clamp_spec;
use crate::strings::starts_with;
use crate::strings::starts_with_spec;
use crate::strings::str_eq;
use crate::template::extract_tokens;
use crate::template::extract_tokens_spec;
use crate::template::render_spec;
use crate::template::replace_tokens;
use crate::timestamp::Timestamps;
use crate::timestamp::get_timestamp;
use crate::timestamp::timestamp_inputs_ok;
use crate::timestamp::timestamp_spec;

verus! {

/// Byte limit of the presence service on its two text fields.
pub const MAX_ACTIVITY_BYTES: usize = 128;

/// The token lists of the four format strings, extracted once at load
/// time so that rendering never re-scans a template.
pub struct Tokens {
    pub details: Vec<String>,
    pub state: Vec<String>,
    pub large_text: Vec<String>,
    pub small_text: Vec<String>,
}

impl Tokens {
    /// Extracts the token lists of all four format strings.
    pub fn from_format(format: &Format) -> (r: Tokens)
        ensures
            r.details.deep_view() == extract_tokens_spec(format.details@),
            r.state.deep_view() == extract_tokens_spec(format.state@),
            r.large_text.deep_view() == extract_tokens_spec(format.large_text@),
            r.small_text.deep_view() == extract_tokens_spec(format.small_text@),
    {
        Tokens {
            details: extract_tokens(format.details.as_str()),
            state: extract_tokens(format.state.as_str()),
            large_text: extract_tokens(format.large_text.as_str()),
            small_text: extract_tokens(format.small_text.as_str()),
        }
    }
}

/// The display fields of one presence update.
pub struct ActivityFields {
    pub details: String,
    pub state: String,
    pub large_image: Option<String>,
    pub small_image: Option<String>,
    pub large_text: Option<String>,
    pub small_text: Option<String>,
    pub timestamps: Timestamps,
}

/// How a built activity relates to the inputs it was built from: the two
/// clamped text lines, the optional tooltips (omitted when they render
/// empty), the cover art with the static image as its fallback (omitted
/// when that is configured empty), and the timestamps of the configured
/// mode.
pub open spec fn activity_matches(
    a: ActivityFields,
    format: Format,
    tokens: Tokens,
    track: Track,
    status: PlayerStatus,
    now: u64,
    art_url: Option<String>,
) -> bool {
    &&& a.details@ == clamp_spec(
        render_spec(format.details@, tokens.details.deep_view(), track, status),
        MAX_ACTIVITY_BYTES as nat,
    )
    &&& a.state@ == clamp_spec(
        render_spec(format.state@, tokens.state.deep_view(), track, status),
        MAX_ACTIVITY_BYTES as nat,
    )
    &&& (match a.large_text {
        Some(t) => t@ == render_spec(format.large_text@, tokens.large_text.deep_view(), track, status)
            && t@.len() > 0,
        None => render_spec(format.large_text@, tokens.large_text.deep_view(), track, status).len()
            == 0,
    })
    &&& (match a.small_text {
        Some(t) => t@ == render_spec(format.small_text@, tokens.small_text.deep_view(), track, status)
            && t@.len() > 0,
        None => render_spec(format.small_text@, tokens.small_text.deep_view(), track, status).len()
            == 0,
    })
    &&& (match art_url {
        Some(u) => a.large_image is Some && a.large_image.unwrap()@ == u@,
        None => if format.large_image@.len() > 0 {
            a.large_image is Some && a.large_image.unwrap()@ == format.large_image@
        } else {
            a.large_image is None
        },
    })
    &&& (if format.small_image@.len() > 0 {
        a.small_image is Some && a.small_image.unwrap()@ == format.small_image@
    } else {
        a.small_image is None
    })
    &&& a.timestamps == timestamp_spec(status, format.timestamp, now)
}

/// Builds the presence fields for a playing track: renders all four
/// templates against the track and status, clamps the two text lines to
/// the service's byte limit, computes the timestamps, and picks the
/// large image from the resolved cover art with the configured static
/// image as fallback.
pub fn build_activity(
    format: &Format,
    tokens: &Tokens,
    track: &Track,
    status: &PlayerStatus,
    now: u64,
    art_url: Option<String>,
) -> (r: ActivityFields)
    requires
        timestamp_inputs_ok(*status, format.timestamp, now),
    ensures
        activity_matches(r, *format, *tokens, *track, *status, now, art_url),
{
    let details = clamp(
        replace_tokens(format.details.as_str(), &tokens.details, track, status),
        MAX_ACTIVITY_BYTES,
    );
    let state = clamp(
        replace_tokens(format.state.as_str(), &tokens.state, track, status),
        MAX_ACTIVITY_BYTES,
    );
    let large_text = replace_tokens(format.large_text.as_str(), &tokens.large_text, track, status);
    let small_text = replace_tokens(format.small_text.as_str(), &tokens.small_text, track, status);
    let timestamps = get_timestamp(status, format.timestamp, now);
    let large_image = match art_url {
        Some(url) => Some(url),
        None => {
            if !format.large_image.as_str().is_empty() {
                Some(format.large_image.clone())
            } else {
                None
            }
        },
    };
    let small_image = if !format.small_image.as_str().is_empty() {
        Some(format.small_image.clone())
    } else {
        None
    };
    ActivityFields {
        details,
        state,
        large_image,
        small_image,
        large_text: if large_text.as_str().is_empty() {
            None
        } else {
            Some(large_text)
        },
        small_text: if small_text.as_str().is_empty() {
            None
        } else {
            Some(small_text)
        },
        timestamps,
    }
}

/// What to push to the presence service after one state change.
pub enum PresenceCommand {
    /// Push these fields.
    SetActivity(ActivityFields),
    /// Clear the displayed activity.
    ClearActivity,
    /// Do nothing: playing, but no current track to describe.
    Skip,
}

/// Decides the one presence command for an observed player state: a
/// playing track is rendered and pushed; a playing state without a
/// current track changes nothing; any state other than playing clears
/// the activity — and exactly then, so one stop yields one clear.
pub fn update_state(
    format: &Format,
    tokens: &Tokens,
    status: &PlayerStatus,
    track: Option<&Track>,
    now: u64,
    art_url: Option<String>,
) -> (r: PresenceCommand)
    requires
        status.state == PlayState::Playing && track is Some ==> timestamp_inputs_ok(
            *status,
            format.timestamp,
            now,
        ),
    ensures
        r is ClearActivity <==> status.state != PlayState::Playing,
        r is Skip <==> (status.state == PlayState::Playing && track is None),
        r matches PresenceCommand::SetActivity(a) ==> track is Some && activity_matches(
            a,
            *format,
            *tokens,
            *track.unwrap(),
            *status,
            now,
            art_url,
        ),
        status.state == PlayState::Playing && track is Some ==> r is SetActivity,
{
    match status.state {
        PlayState::Playing => match track {
            Some(t) => PresenceCommand::SetActivity(
                build_activity(format, tokens, t, status, now, art_url),
            ),
            None => PresenceCommand::Skip,
        },
        _ => PresenceCommand::ClearActivity,
    }
}

/// An asynchronous event of the presence service, delivered to the
/// orchestrator over its event channel.
pub enum ServiceEvent {
    /// The presence connection finished initializing.
    Ready,
    /// The presence transport reported a fatal error.
    Error { message: String },
}

/// What the orchestrator does with one presence-service event.
#[derive(Clone, Copy, PartialEq, Eq, Structural, Debug)]
pub enum ServiceAction {
    /// Re-fetch the player state and push a fresh update, so the first
    /// frame is not missed when the presence connection comes up late.
    Refresh,
    /// Wait out the backoff, then restart the presence connection.
    RestartPresence,
}

/// Decides the orchestrator's response to one presence-service event.
pub fn handle_service_event(event: &ServiceEvent) -> (r: ServiceAction)
    ensures
        r == ServiceAction::Refresh <==> event is Ready,
        r == ServiceAction::RestartPresence <==> event is Error,
{
    match event {
        ServiceEvent::Ready => ServiceAction::Refresh,
        ServiceEvent::Error { .. } => ServiceAction::RestartPresence,
    }
}

/// Only an I/O-class error of the presence service is escalated into a
/// reconnect; every other error event is swallowed.
pub fn should_forward_presence_error(message: &str) -> (r: bool)
    ensures
        r == (message@ == ("Io Err")@),
{
    str_eq(message, "Io Err")
}

/// A named subsystem of the player whose change notifications arrive on
/// the session's subscription stream.
#[derive(Clone, Copy, PartialEq, Eq, Structural, Debug)]
pub enum Subsystem {
    Player,
    Queue,
    Other,
}

/// Only player and queue changes are worth a refresh; changes of any
/// other subsystem are filtered out.
pub fn is_relevant_change(subsystem: Subsystem) -> (r: bool)
    ensures
        r == (subsystem == Subsystem::Player || subsystem == Subsystem::Queue),
{
    match subsystem {
        Subsystem::Player => true,
        Subsystem::Queue => true,
        Subsystem::Other => false,
    }
}

/// The presence service answers a successful activity push with a
/// spurious complaint about a missing field; that known-benign quirk is
/// not worth logging, every other push failure is.
pub fn should_log_activity_error(message: &str) -> (r: bool)
    ensures
        r == !starts_with_spec(message@, ("missing field `buttons`")@),
{
    !starts_with(message, "missing field `buttons`")
}

} // verus!
