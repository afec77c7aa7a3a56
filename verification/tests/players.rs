use medley::logging::{
    decode_noise_key, level_from_args, log_line, log_path, once_per_run, parse_level, resolve_level, state_dir, Level,
    LogGate, Noise,
};
use medley::logbuf::LogBuf;
use medley::media_keys::{
    instance_bus_name, metadata, pause_command, play_command, playback_status_str, seek_command, set_position_delta_ms,
};
use medley::player::{NullPlayer, Snapshot};
use medley::ranges::Span;
use medley::startup::{needs_full_redraw, playback_state_changed};
use medley::stream::{StreamInfo, StreamState};
use medley::title::{TitleBody, WindowTitle};
use medley::worker::{LoadStep, LoadedStep, SinkStep, Worker};
use medley::{Command, CoreEvent, PlayerEvent, PlayerState, SourceId};

fn http() -> SourceId {
    SourceId::new("http")
}

fn info(state: StreamState) -> StreamInfo {
    StreamInfo {
        ranges: vec![Span { start: 0, end: 5 }],
        prefix: 5,
        len: Some(10),
        jumpable: true,
        state,
        ahead: 5,
        percent: Some(50),
    }
}

#[test]
fn a_player_reports_its_download() {
    let s = Snapshot::default();
    assert!(s.status(Some(info(StreamState::Connecting))).buffering);
    assert_eq!(s.status(Some(info(StreamState::Fetching))).download_pct, Some(50));
    assert!(!s.status(Some(info(StreamState::Fetching))).buffering);
    assert_eq!(s.status(Some(info(StreamState::Done))).download_pct, None);
    assert_eq!(s.status(None).download_pct, None);
    let waiting = Snapshot { buffering: true, ..Snapshot::default() };
    assert!(waiting.status(None).buffering);
}

#[test]
fn the_silent_player_plays_to_the_end() {
    let mut p = NullPlayer::new(300);
    assert_eq!(p.step_ms(), 100);
    let (run, events) = p.load(&http(), &"u".to_string(), false, 0);
    assert!(matches!(events[0], PlayerEvent::Loading { .. }));
    assert!(matches!(events[1], PlayerEvent::Playing { .. }));
    assert_eq!(p.status().state, PlayerState::Playing);
    assert!(matches!(p.step(run, 1)[0], PlayerEvent::Progress { position_ms: 100, duration_ms: 300 }));
    assert!(matches!(p.step(run, 2)[0], PlayerEvent::Progress { position_ms: 200, duration_ms: 300 }));
    assert_eq!(p.status().position_ms, 200);
    match &p.step(run, 3)[0] {
        PlayerEvent::Finished { source, uri } => {
            assert_eq!(source.as_str(), "http");
            assert_eq!(uri, "u");
        },
        _ => panic!("expected the end"),
    }
    assert_eq!(p.status().state, PlayerState::Stopped);
}

#[test]
fn a_replaced_playback_says_nothing() {
    let mut p = NullPlayer::new(0);
    assert_eq!(p.fake_len_ms, 3);
    let (first, _) = p.load(&http(), &"a".to_string(), true, 5);
    assert_eq!(p.status().state, PlayerState::Paused);
    let (second, _) = p.load(&http(), &"b".to_string(), false, 0);
    assert!(p.step(first, 3).is_empty());
    assert_eq!(p.status().state, PlayerState::Playing);
    assert!(matches!(p.stop()[0], PlayerEvent::Stopped));
    assert!(p.step(second, 1).is_empty());
}

#[test]
fn the_silent_player_is_paused_and_moved() {
    let mut p = NullPlayer::new(300);
    assert!(p.toggle().is_empty());
    p.load(&http(), &"a".to_string(), false, 0);
    assert!(matches!(p.toggle()[0], PlayerEvent::Paused));
    assert!(matches!(p.toggle()[0], PlayerEvent::Playing { .. }));
    assert!(matches!(p.seek(77)[0], PlayerEvent::Progress { position_ms: 77, duration_ms: 300 }));
}

#[test]
fn the_worker_plays_the_latest_load() {
    let mut w = Worker::new(true);
    let (first, _, step) = w.load(&http(), &"a".to_string(), 0);
    assert_eq!(step, LoadStep::Open);
    let (second, events, _) = w.load(&http(), &"b".to_string(), 9);
    assert!(matches!(events[0], PlayerEvent::Loading { .. }));
    let (told, step) = w.loaded(first, http(), "a".to_string(), false, 0, Some(100));
    assert!(told.is_empty());
    assert_eq!(step, LoadedStep::Stale);
    let (told, step) = w.loaded(second, http(), "b".to_string(), true, 9, Some(100));
    assert_eq!(told.len(), 2);
    assert_eq!(step, LoadedStep::Start { from_ms: 9, pause: true });
    assert_eq!(w.shown.state, PlayerState::Paused);
    assert!(w.tick(true, 10, true).is_empty());
    let (told, step) = w.toggle(true);
    assert!(matches!(told[0], PlayerEvent::Playing { .. }));
    assert_eq!(step, SinkStep::Play);
    assert!(matches!(w.tick(false, 50, false)[0], PlayerEvent::Progress { position_ms: 50, duration_ms: 100 }));
    let end = w.tick(false, 100, true);
    assert!(matches!(end[1], PlayerEvent::Finished { .. }));
    assert_eq!(w.tick(false, 100, true).len(), 1);
}

#[test]
fn the_worker_tells_of_failures() {
    let mut w = Worker::new(false);
    let (run, _, step) = w.load(&http(), &"a".to_string(), 0);
    assert_eq!(step, LoadStep::NoDevice);
    let (told, step) = w.loaded(run, http(), "a".to_string(), false, 0, None);
    assert!(matches!(told[0], PlayerEvent::LoadFailed { .. }));
    assert_eq!(step, LoadedStep::Failed);
    assert_eq!(w.shown.state, PlayerState::Stopped);
    assert_eq!(w.toggle(false).1, SinkStep::Leave);
    w.sought(5, true);
    assert_eq!(w.shown.position_ms, 0);
    assert!(matches!(w.stop()[0], PlayerEvent::Stopped));
}

#[test]
fn media_keys_become_commands() {
    assert!(matches!(play_command(PlayerState::Paused), Some(Command::PlayPause)));
    assert!(play_command(PlayerState::Playing).is_none());
    assert!(matches!(pause_command(PlayerState::Playing), Some(Command::PlayPause)));
    assert!(pause_command(PlayerState::Paused).is_none());
    assert_eq!(set_position_delta_ms(5_000_000, 2_000), 3_000);
    assert!(matches!(seek_command(-2_000_000), Command::Seek(-2_000)));
    assert_eq!(playback_status_str(PlayerState::Playing), "Playing");
    assert_eq!(playback_status_str(PlayerState::Paused), "Paused");
    assert_eq!(playback_status_str(PlayerState::Stopped), "Stopped");
    assert_eq!(metadata(&None).track_path, "/org/mpris/MediaPlayer2/TrackList/NoTrack");
    assert_eq!(instance_bus_name(42), "org.mpris.MediaPlayer2.medley.instance42");
}

#[test]
fn levels_are_chosen() {
    assert_eq!(parse_level(" Debug "), Some(Level::Debug));
    assert_eq!(parse_level("loud"), None);
    let args = vec!["--log-level".to_string(), "trace".to_string()];
    assert_eq!(level_from_args(&args), Some(Level::Trace));
    let joined = vec!["x".to_string(), "--log-level=off".to_string()];
    assert_eq!(level_from_args(&joined), Some(Level::Off));
    assert_eq!(resolve_level(&args, &Some("error".to_string())), Level::Trace);
    assert_eq!(resolve_level(&Vec::new(), &Some("error".to_string())), Level::Error);
    assert_eq!(resolve_level(&Vec::new(), &None), Level::Info);
    assert_eq!(log_path(&state_dir(&None, "/home/u")), "/home/u/.local/state/medley/medley.log");
    assert_eq!(log_path(&state_dir(&Some("/s".to_string()), "/home/u")), "/s/medley/medley.log");
}

#[test]
fn floods_of_messages_are_counted() {
    assert_eq!(decode_noise_key("symphonia_core::x"), Some(Noise::Symphonia));
    assert_eq!(decode_noise_key("medley"), None);
    assert!(!once_per_run("medley", "hello"));
    let mut g = LogGate::new(Level::Info);
    assert!(!g.enabled(Level::Debug));
    assert!(g.take(Level::Warn, "symphonia", "bad frame").write);
    assert!(!g.take(Level::Warn, "symphonia", "bad frame").write);
    assert!(!g.take(Level::Warn, "symphonia", "bad frame").write);
    let other = g.take(Level::Info, "medley", "hello");
    assert!(other.write);
    assert!(other.summary.is_some());
    assert!(g.flush().is_none());
    assert_eq!(log_line("12:00:00", Level::Info, "hello"), "12:00:00 INFO  hello");
}

#[test]
fn the_log_pane_keeps_the_last_lines() {
    let mut b = LogBuf::new(2);
    assert!(b.is_empty());
    b.push("a".to_string());
    b.push("b".to_string());
    b.push("c".to_string());
    assert_eq!(b.len(), 2);
    assert_eq!(b.total_pushed(), 3);
    assert_eq!(b.snapshot(), vec!["b".to_string(), "c".to_string()]);
    assert_eq!(b.tail(1), vec!["c".to_string()]);
    assert_eq!(b.range(0, 1), vec!["b".to_string()]);
}

#[test]
fn the_title_is_set_when_it_changes() {
    let mut w = WindowTitle::new(0);
    assert!(matches!(w.update("short".to_string(), "", 10), TitleBody::Whole));
    assert!(w.set("short".to_string()));
    assert!(!w.set("short".to_string()));
    let long: String = std::iter::repeat('x').take(200).collect();
    assert!(matches!(w.update(long, "", 20), TitleBody::Scrolled { elapsed: 0, .. }));
}

#[test]
fn which_events_matter_to_widgets() {
    let tick = CoreEvent::Player(PlayerEvent::Progress { position_ms: 1, duration_ms: 2 });
    assert!(!playback_state_changed(&vec![tick]));
    assert!(playback_state_changed(&vec![CoreEvent::QueueChanged, CoreEvent::Player(PlayerEvent::Paused)]));
    assert!(needs_full_redraw(&vec![CoreEvent::PluginLoginSucceeded]));
    assert!(!needs_full_redraw(&vec![CoreEvent::QueueChanged]));
}
