//! What media keys and desktop controls ask for, and what they are told.

use vstd::prelude::*;
use crate::command::Command;
use crate::ids::{hex_digits, uuid_to_digits};
use crate::text::{append_decimal, append_str, decimal, str_views, string_of};
use crate::traits::PlayerState;
use crate::types::{clone_opt, clone_strings, opt_text, Track};

verus! {

/// Whether a command is the one that toggles playback.
pub open spec fn toggles(c: Option<Command>) -> bool {
    c matches Some(x) && x is PlayPause
}

/// What "play" means: only what is paused can be resumed.
pub fn play_command(state: PlayerState) -> (r: Option<Command>)
    ensures
        state == PlayerState::Paused ==> toggles(r),
        state != PlayerState::Paused ==> r is None,
{
    if state == PlayerState::Paused {
        Some(Command::PlayPause)
    } else {
        None
    }
}

/// What "pause" means: only what plays can be paused.
pub fn pause_command(state: PlayerState) -> (r: Option<Command>)
    ensures
        state == PlayerState::Playing ==> toggles(r),
        state != PlayerState::Playing ==> r is None,
{
    if state == PlayerState::Playing {
        Some(Command::PlayPause)
    } else {
        None
    }
}

/// A quotient without its fraction.
pub open spec fn toward_zero(a: int, b: int) -> int {
    if a >= 0 {
        a / b
    } else {
        -((-a) / b)
    }
}

fn thousandths(us: i64) -> (r: i64)
    ensures
        r == toward_zero(us as int, 1000),
{
    if us >= 0 {
        us / 1000
    } else {
        let m: i128 = -(us as i128);
        let q: i128 = m / 1000;
        (-q) as i64
    }
}

/// The seek, in milliseconds, from a position in milliseconds to one in microseconds.
pub fn set_position_delta_ms(target_position_us: i64, current_position_ms: u32) -> (r: i64)
    ensures
        r == toward_zero(target_position_us as int, 1000) - current_position_ms,
{
    thousandths(target_position_us) - current_position_ms as i64
}

/// The seek that an offset in microseconds asks for.
pub fn seek_command(offset_us: i64) -> (r: Command)
    ensures
        r matches Command::Seek(d) && d == toward_zero(offset_us as int, 1000),
{
    Command::Seek(thousandths(offset_us))
}

/// The word for a state.
pub open spec fn status_word(state: PlayerState) -> Seq<char> {
    match state {
        PlayerState::Playing => "Playing"@,
        PlayerState::Paused => "Paused"@,
        PlayerState::Stopped => "Stopped"@,
    }
}

pub fn playback_status_str(state: PlayerState) -> (r: String)
    ensures
        r@ == status_word(state),
{
    match state {
        PlayerState::Playing => "Playing".to_owned(),
        PlayerState::Paused => "Paused".to_owned(),
        PlayerState::Stopped => "Stopped".to_owned(),
    }
}

/// What is told of the track that plays. Without one only the place that stands for none is told.
pub struct TrackCard {
    pub track_path: String,
    /// In microseconds.
    pub length_us: Option<i64>,
    pub title: Option<String>,
    pub artists: Vec<String>,
    pub album: Option<String>,
}

pub fn metadata(track: &Option<Track>) -> (r: TrackCard)
    ensures
        match *track {
            Some(t) => {
                &&& r.track_path@ == "/org/medley/track/"@ + hex_digits(t@.id.0 as nat, 32)
                &&& r.length_us == Some((t@.duration_ms * 1000) as i64)
                &&& opt_text(r.title) == Some(t@.title)
                &&& str_views(r.artists@) == t@.artists
                &&& opt_text(r.album) == t@.album
            },
            None => {
                &&& r.track_path@ == "/org/mpris/MediaPlayer2/TrackList/NoTrack"@
                &&& r.length_us is None && r.title is None && r.artists@.len() == 0 && r.album is None
            },
        },
{
    match track {
        Some(t) => {
            let mut track_path = "/org/medley/track/".to_owned();
            track_path.append(&uuid_to_digits(t.id.0));
            TrackCard {
                track_path,
                length_us: Some((t.duration_ms as i64) * 1000),
                title: Some(t.title.clone()),
                artists: clone_strings(&t.artists),
                album: clone_opt(&t.album),
            }
        },
        None => TrackCard {
            track_path: "/org/mpris/MediaPlayer2/TrackList/NoTrack".to_owned(),
            length_us: None,
            title: None,
            artists: Vec::new(),
            album: None,
        },
    }
}

/// The name under which one running player is known.
pub fn instance_bus_name(process: u32) -> (r: String)
    ensures
        r@ == "org.mpris.MediaPlayer2.medley.instance"@ + decimal(process as nat),
{
    let mut v: Vec<char> = Vec::new();
    append_str(&mut v, "org.mpris.MediaPlayer2.medley.instance");
    append_decimal(&mut v, process as u64);
    assert(v@ =~= "org.mpris.MediaPlayer2.medley.instance"@ + decimal(process as nat));
    string_of(&v)
}

} // verus!
