//! Model of the player's observable state: transport status and the
//! current track with its tags.

use vstd::prelude::*;

verus! {

/// Transport state of the player.
#[derive(Clone, Copy, PartialEq, Eq, Structural, Debug)]
pub enum PlayState {
    Playing,
    Paused,
    Stopped,
}

/// Snapshot of the player's transport status. Elapsed and total duration
/// are whole seconds and may each be unavailable.
#[derive(Clone, Debug)]
pub struct PlayerStatus {
    pub state: PlayState,
    pub elapsed: Option<u64>,
    pub duration: Option<u64>,
}

/// Immutable snapshot of the current track: its title plus the tag values
/// that the templates and the art lookup read. A tag holds zero or more
/// values; only the first value is ever used.
#[derive(Clone, Debug)]
pub struct Track {
    pub title: Option<String>,
    pub artist: Vec<String>,
    pub album: Vec<String>,
    pub album_artist: Vec<String>,
    pub date: Vec<String>,
    pub disc: Vec<String>,
    pub genre: Vec<String>,
    pub track_number: Vec<String>,
    pub release_id: Vec<String>,
}

/// Attempts to read the first value for a tag
/// (the player hands each tag over as a vector of values, or nothing).
pub fn try_get_first_tag(vec: Option<&Vec<String>>) -> (r: Option<&str>)
    ensures
        r is Some <==> (vec is Some && vec.unwrap()@.len() > 0),
        r is Some ==> r.unwrap()@ == vec.unwrap()@[0]@,
{
    match vec {
        Some(v) => {
            if v.len() > 0 {
                Some(v[0].as_str())
            } else {
                None
            }
        },
        None => None,
    }
}

} // verus!
