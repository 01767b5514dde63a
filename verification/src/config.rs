//! The configuration surface: format strings, static image identifiers,
//! the timestamp mode, the application identifier and the endpoint list,
//! together with their defaults. Loading and merging a configuration
//! file is the host program's business; the library only defines the
//! structure and its default values.

use vstd::prelude::*;
use vstd::string::StringExecFns;

verus! {

/// Which of the start/end timestamp markers a presence update carries.
#[derive(Clone, Copy, PartialEq, Eq, Structural, Debug)]
pub enum TimestampMode {
    Elapsed,
    Left,
    Off,
    Both,
}

impl Default for TimestampMode {
    fn default() -> (r: Self)
        ensures
            r == TimestampMode::Both,
    {
        TimestampMode::Both
    }
}

/// The four template strings, the two static image identifiers and the
/// timestamp mode. Loaded once at startup and read-only thereafter.
#[derive(Clone, Debug)]
pub struct Format {
    pub details: String,
    pub state: String,
    pub timestamp: TimestampMode,
    pub large_image: String,
    pub small_image: String,
    pub large_text: String,
    pub small_text: String,
}

/// The full configuration: application identifier, candidate player
/// endpoints in order of preference, and the display format.
#[derive(Clone, Debug)]
pub struct Config {
    pub id: u64,
    pub hosts: Vec<String>,
    pub format: Format,
}

pub fn default_details_format() -> (r: String)
    ensures
        r@ == ("$title")@,
{
    String::from_str("$title")
}

pub fn default_state_format() -> (r: String)
    ensures
        r@ == ("$artist / $album")@,
{
    String::from_str("$artist / $album")
}

pub fn default_image() -> (r: String)
    ensures
        r@ == ("notes")@,
{
    String::from_str("notes")
}

pub fn default_discord_id() -> (r: u64)
    ensures
        r == 677226551607033903u64,
{
    677226551607033903
}

pub fn default_mpd_hosts() -> (r: Vec<String>)
    ensures
        r@.len() == 1,
        r@[0]@ == ("localhost:6600")@,
{
    let mut hosts: Vec<String> = Vec::new();
    hosts.push(String::from_str("localhost:6600"));
    hosts
}

impl Default for Format {
    fn default() -> (r: Self)
        ensures
            r.details@ == ("$title")@,
            r.state@ == ("$artist / $album")@,
            r.timestamp == TimestampMode::Both,
            r.large_image@ == ("notes")@,
            r.small_image@ == ("notes")@,
            r.large_text@.len() == 0,
            r.small_text@.len() == 0,
    {
        Format {
            details: default_details_format(),
            state: default_state_format(),
            timestamp: TimestampMode::Both,
            large_image: default_image(),
            small_image: default_image(),
            large_text: String::new(),
            small_text: String::new(),
        }
    }
}

impl Default for Config {
    fn default() -> (r: Self)
        ensures
            r.id == 677226551607033903u64,
            r.hosts@.len() == 1,
            r.hosts@[0]@ == ("localhost:6600")@,
            r.format.details@ == ("$title")@,
            r.format.state@ == ("$artist / $album")@,
            r.format.timestamp == TimestampMode::Both,
    {
        Config { id: default_discord_id(), hosts: default_mpd_hosts(), format: Format::default() }
    }
}

} // verus!
