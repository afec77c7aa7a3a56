use medley::command::{Command, Dispatch, Request};
use medley::env::{fresh_deal, Env, PlayerFacts};
use medley::moment::Moment;
use medley::playback::{deal, Effect};
use medley::player_events::seek_target;
use medley::session::SourceFacts;
use medley::session_events::Fetch;
use medley::strmap::StrMap;
use medley::{
    BindError, BrowseNode, BuiltinAction, Bus, Config, CoreEvent, Error, HotkeyTarget, MemStore, PlayerEvent, PlayerState,
    PlayerStatus, Playlist, PlaylistId, PluginHealth, Quality, Rendition, ScanMode, Session, SourceId, Track, TrackId,
};

fn at(secs: i64) -> Moment {
    Moment::new(secs, 0).unwrap()
}

fn track(id: u128, title: &str, source: &str, uri: &str) -> Track {
    let r = Rendition::fresh_at(SourceId::new(source), uri.to_string(), 100_000, Quality::Unknown, at(0));
    Track::fresh_with(TrackId(id), title.to_string(), vec!["Band".to_string()], r)
}

fn env() -> Env {
    Env {
        players: vec![
            PlayerFacts {
                source: SourceId::new("http"),
                player: 1,
                accepts: vec![SourceId::new("http"), SourceId::new("local")],
                declines: StrMap::new(),
            },
            PlayerFacts { source: SourceId::new("spotify"), player: 2, accepts: vec![SourceId::new("spotify")], declines: StrMap::new() },
        ],
        cached: StrMap::new(),
        files: StrMap::new(),
        now: at(1_000),
        ms: 1_000_000,
        deal: vec![0, 1, 2],
    }
}

fn facts(name: &str) -> SourceFacts {
    SourceFacts {
        id: SourceId::new(name),
        liked: if name == "spotify" { Some(BrowseNode::Path("liked".to_string())) } else { None },
        synthetic: vec![BrowseNode::Path("daily".to_string())],
        adds_first: Vec::new(),
        has_albums: false,
    }
}

fn session() -> Session {
    let mut store = MemStore::new();
    store.upsert_track(&track(10, "One", "http", "http://h/1"));
    store.upsert_track(&track(11, "Two", "http", "http://h/2"));
    store.upsert_track(&track(12, "Three", "spotify", "spotify:3"));
    store.upsert_playlist(&Playlist {
        id: PlaylistId(50),
        name: "Mix".to_string(),
        notes: String::new(),
        items: vec![TrackId(10)],
    });
    Session::new(
        Config::first_run(),
        Bus::new(),
        store,
        vec![facts("spotify"), facts("http")],
        &Vec::new(),
        &Vec::new(),
    )
}

fn run(s: &mut Session, cmd: Command) -> (Dispatch, Vec<Request>) {
    let tempos: StrMap<String> = StrMap::new();
    let r = s.dispatch(cmd, &env(), &tempos, PlaylistId(77)).unwrap();
    (r.dispatch, r.requests)
}

fn playing(s: &mut Session, source: &str, uri: &str) {
    let ev = CoreEvent::Player(PlayerEvent::Playing { source: SourceId::new(source), uri: uri.to_string() });
    s.on_event(&ev, &status(PlayerState::Playing), &env());
}

fn status(state: PlayerState) -> PlayerStatus {
    PlayerStatus { state, position_ms: 0, duration_ms: 100_000, buffering: false, download_pct: None }
}

fn loads(s: &Session) -> Vec<String> {
    s.playback
        .effects
        .iter()
        .filter_map(|e| match e {
            Effect::Load { rendition, .. } => Some(rendition.uri.clone()),
            _ => None,
        })
        .collect()
}

#[test]
fn a_played_track_is_loaded_on_its_player() {
    let mut s = session();
    let before = s.revision();
    let (d, _) = run(&mut s, Command::Play(TrackId(10)));
    assert!(matches!(d, Dispatch::Handled));
    assert_eq!(loads(&s), vec!["http://h/1".to_string()]);
    assert!(s.playback.effects.iter().any(|e| matches!(e, Effect::StopOthers(1))));
    assert_eq!(s.now_playing_id(), Some(TrackId(10)));
    assert_eq!(s.now_playing().unwrap().title, "One");
    assert_ne!(s.revision(), before);
}

#[test]
fn the_queue_goes_before_the_list() {
    let mut s = session();
    run(
        &mut s,
        Command::PlayContext {
            tracks: vec![TrackId(10), TrackId(11)],
            index: 0,
            remote: None,
            local: Some(PlaylistId(50)),
            name: Some("Mix".to_string()),
        },
    );
    assert!(matches!(run(&mut s, Command::Enqueue(TrackId(12))).0, Dispatch::Queued(1)));
    assert_eq!(s.queue_ids(), vec![TrackId(10), TrackId(12)]);
    assert_eq!(s.playing_context_ids(), vec![TrackId(10), TrackId(11)]);
    assert_eq!(s.playing_context_name(), Some("Mix".to_string()));
    playing(&mut s, "http", "http://h/1");
    let done = CoreEvent::Player(PlayerEvent::Finished { source: SourceId::new("http"), uri: "http://h/1".to_string() });
    s.on_event(&done, &status(PlayerState::Stopped), &env());
    assert_eq!(s.now_playing_id(), Some(TrackId(12)));
    assert_eq!(s.queue_ids(), vec![TrackId(12)]);
    playing(&mut s, "spotify", "spotify:3");
    let done = CoreEvent::Player(PlayerEvent::Finished { source: SourceId::new("spotify"), uri: "spotify:3".to_string() });
    s.on_event(&done, &status(PlayerState::Stopped), &env());
    assert_eq!(s.now_playing_id(), Some(TrackId(11)));
    assert_eq!(s.history_ids(), vec![TrackId(11), TrackId(12), TrackId(10)]);
}

#[test]
fn previous_goes_back_in_the_history() {
    let mut s = session();
    run(&mut s, Command::Play(TrackId(10)));
    run(&mut s, Command::Play(TrackId(12)));
    run(&mut s, Command::Previous);
    assert_eq!(s.now_playing_id(), Some(TrackId(10)));
}

#[test]
fn wedged_tracks_come_first() {
    let mut s = session();
    run(&mut s, Command::Enqueue(TrackId(10)));
    assert!(matches!(run(&mut s, Command::Wedge(TrackId(11))).0, Dispatch::Wedged(2)));
    assert_eq!(s.queue_ids(), vec![TrackId(11), TrackId(10)]);
    run(&mut s, Command::ClearQueue);
    assert_eq!(s.queue_len(), 0);
}

#[test]
fn playback_that_fails_moves_to_another_source() {
    let mut s = session();
    let mut t = track(20, "Both", "http", "http://h/x");
    t.renditions.push(Rendition::fresh_at(
        SourceId::new("spotify"),
        "spotify:x".to_string(),
        100_000,
        Quality::Unknown,
        at(0),
    ));
    s.catalog.store.upsert_track(&t);
    run(&mut s, Command::Play(TrackId(20)));
    let first = loads(&s)[0].clone();
    let failed = if first == "http://h/x" { "http" } else { "spotify" };
    let ev = CoreEvent::Player(PlayerEvent::LoadFailed { source: SourceId::new(failed), uri: first.clone() });
    s.on_event(&ev, &status(PlayerState::Stopped), &env());
    let all = loads(&s);
    assert_eq!(all.len(), 2);
    assert_ne!(all[1], first);
}

#[test]
fn shuffle_plays_every_track_once() {
    let mut s = session();
    assert!(matches!(run(&mut s, Command::ToggleShuffle).0, Dispatch::ShuffleSet(true)));
    assert!(s.shuffle());
    let order = fresh_deal(10);
    let mut sorted = order.clone();
    sorted.sort();
    assert_eq!(sorted, (0..10).collect::<Vec<usize>>());
    assert_eq!(deal(&vec![2, 0, 1], 1), vec![2, 0]);
    assert_eq!(deal(&vec![0], 0), vec![0]);
}

#[test]
fn seeks_stay_within_a_track() {
    assert_eq!(seek_target(5_000, -10_000), 0);
    assert_eq!(seek_target(5_000, 3_000), 8_000);
}

#[test]
fn playlists_are_made_and_filled() {
    let mut s = session();
    let id = match run(&mut s, Command::NewPlaylist("New".to_string())).0 {
        Dispatch::PlaylistCreated(id) => id,
        _ => panic!("expected a new playlist"),
    };
    assert_eq!(id, PlaylistId(77));
    run(&mut s, Command::AddToPlaylist { track: TrackId(10), playlist: id });
    assert_eq!(s.playlist_track_ids(id), vec![TrackId(10)]);
    let toggle = |s: &mut Session| {
        run(
            s,
            Command::TogglePlaylistMembership {
                track: TrackId(11),
                playlist: HotkeyTarget::Local(PlaylistId(77)),
                position: None,
            },
        )
        .0
    };
    match toggle(&mut s) {
        Dispatch::MembershipSet { track, playlist, added } => {
            assert!(track.contains("Two"));
            assert_eq!(playlist, "New");
            assert!(added);
        },
        _ => panic!("expected a change"),
    }
    assert_eq!(s.playlist_track_ids(id), vec![TrackId(10), TrackId(11)]);
    assert!(matches!(toggle(&mut s), Dispatch::MembershipSet { added: false, .. }));
    assert_eq!(s.playlist_track_ids(id), vec![TrackId(10)]);
    assert!(s.playlists().iter().any(|p| p.id == id));
}

#[test]
fn a_playlist_that_is_not_there_is_an_error() {
    let mut s = session();
    let tempos: StrMap<String> = StrMap::new();
    let r = s.dispatch(
        Command::AddToPlaylist { track: TrackId(10), playlist: PlaylistId(999) },
        &env(),
        &tempos,
        PlaylistId(77),
    );
    assert!(matches!(r, Err(Error::NotFound)));
}

#[test]
fn liked_tracks_go_to_the_source() {
    let mut s = session();
    let (d, requests) = run(&mut s, Command::Like(TrackId(12)));
    assert!(!matches!(d, Dispatch::Refused(_)));
    assert!(requests.iter().any(|r| matches!(r, Request::ChangeRemote { liked: true, .. })));
}

#[test]
fn keys_are_bound() {
    let mut s = session();
    let mix = HotkeyTarget::Local(PlaylistId(50));
    assert!(s.bind_hotkey('5', mix).is_ok());
    assert_eq!(s.hotkey_for('5').unwrap().to_text(), HotkeyTarget::Local(PlaylistId(50)).to_text());
    assert_eq!(s.playlist_hotkey(&HotkeyTarget::Local(PlaylistId(50))), Some('5'));
    let synthetic = HotkeyTarget::Remote(SourceId::new("spotify"), BrowseNode::Path("daily".to_string()));
    assert!(matches!(s.bind_hotkey('6', synthetic), Err(BindError::SyntheticPlaylist)));
    let key = BuiltinAction::Quit.default_key().unwrap();
    assert!(matches!(s.bind_hotkey(key, HotkeyTarget::Local(PlaylistId(50))), Err(BindError::BuiltinKey(_))));
    assert_eq!(s.effective_hotkey(&HotkeyTarget::Builtin(BuiltinAction::Quit)), Some(key));
    s.unbind_hotkey(&HotkeyTarget::Local(PlaylistId(50)));
    assert!(s.hotkey_for('5').is_none());
    assert!(s.hotkeys().is_empty());
}

#[test]
fn letters_show_memberships() {
    let mut s = session();
    s.set_hotkeys(&vec![('5', HotkeyTarget::Local(PlaylistId(50)))]);
    s.hotkey_memberships(0);
    assert_eq!(s.memo.table.len(), 1);
    assert_eq!(s.memo.table[0].key, '5');
    assert_eq!(s.memo.table[0].members, vec![TrackId(10)]);
}

#[test]
fn searches_are_sent_out() {
    let mut s = session();
    let (_, requests) = run(&mut s, Command::Search("one".to_string()));
    let id = match &requests[0] {
        Request::RunSearch { search, query } => {
            assert_eq!(query, "one");
            *search
        },
        _ => panic!("expected a search"),
    };
    assert_eq!(s.results_query(), Some("one"));
    s.on_event(&CoreEvent::SearchHit { search: id, track: TrackId(11) }, &status(PlayerState::Stopped), &env());
    assert_eq!(s.results_ids(), vec![TrackId(11)]);
    assert_eq!(s.results_window(0, 5)[0].title, "Two");
    s.on_event(&CoreEvent::SearchHit { search: id + 1, track: TrackId(10) }, &status(PlayerState::Stopped), &env());
    assert_eq!(s.results_len(), 1);
}

#[test]
fn linking_takes_two_steps() {
    let mut s = session();
    assert!(matches!(run(&mut s, Command::LinkPick(TrackId(10))).0, Dispatch::LinkPending));
    run(&mut s, Command::LinkPick(TrackId(12)));
    assert!(s.catalog.store.get_track(TrackId(12)).is_none() || s.catalog.store.get_track(TrackId(10)).is_none());
}

#[test]
fn linked_tracks_hold_both_renditions() {
    let mut s = session();
    assert!(matches!(run(&mut s, Command::LinkPick(TrackId(10))).0, Dispatch::LinkPending));
    assert!(s.catalog.store.has_track(TrackId(12)));
    assert!(matches!(run(&mut s, Command::LinkPick(TrackId(12))).0, Dispatch::Handled));
    assert!(!s.catalog.store.has_track(TrackId(12)));
    let t = s.catalog.store.get_track(TrackId(10)).unwrap();
    let uris: Vec<&str> = t.renditions.iter().map(|r| r.uri.as_str()).collect();
    assert_eq!(uris, vec!["http://h/1", "spotify:3"]);
    assert!(matches!(run(&mut s, Command::LinkPick(TrackId(11))).0, Dispatch::LinkPending));
    s.bus.drain();
    run(&mut s, Command::Unlink(TrackId(10)));
    let t = s.catalog.store.get_track(TrackId(10)).unwrap();
    assert_eq!(t.renditions.len(), 1);
    assert_eq!(t.renditions[0].uri, "http://h/1");
    assert_eq!(s.bus.drain().len(), 1);
    assert!(s.catalog.store.track_by_rendition(&SourceId::new("spotify"), "spotify:3").is_none());
}

#[test]
fn unlinking_keeps_the_first_of_one_source() {
    let mut s = session();
    let mut t = track(20, "Four", "http", "a");
    for uri in ["b", "c"] {
        t.renditions.push(Rendition::fresh_at(SourceId::new("http"), uri.to_string(), 1, Quality::Unknown, at(0)));
    }
    s.catalog.store.upsert_track(&t);
    assert!(matches!(run(&mut s, Command::Unlink(TrackId(20))).0, Dispatch::Handled));
    let left = s.catalog.store.get_track(TrackId(20)).unwrap();
    let kept: Vec<(&str, &str)> = left.renditions.iter().map(|r| (r.source.as_str(), r.uri.as_str())).collect();
    assert_eq!(kept, vec![("http", "a")]);
    assert_eq!(left.title, "Four");
    assert!(matches!(run(&mut s, Command::Unlink(TrackId(20))).0, Dispatch::Handled));
    assert!(s.catalog.store.has_track(TrackId(20)));
    let tempos: StrMap<String> = StrMap::new();
    assert!(matches!(s.dispatch(Command::Unlink(TrackId(99)), &env(), &tempos, PlaylistId(77)), Err(Error::NotFound)));
}

#[test]
fn three_failures_in_a_row_stop_playback() {
    let mut s = session();
    s.catalog.store.upsert_track(&track(13, "Five", "http", "http://h/5"));
    for id in [11, 13, 12] {
        run(&mut s, Command::Enqueue(TrackId(id)));
    }
    run(&mut s, Command::Play(TrackId(10)));
    let fail = |s: &mut Session, uri: &str| {
        let ev = CoreEvent::Player(PlayerEvent::LoadFailed { source: SourceId::new("http"), uri: uri.to_string() });
        s.on_event(&ev, &status(PlayerState::Stopped), &env());
    };
    fail(&mut s, "http://h/1");
    assert_eq!(s.now_playing_id(), Some(TrackId(11)));
    fail(&mut s, "http://h/2");
    assert_eq!(s.now_playing_id(), Some(TrackId(13)));
    fail(&mut s, "http://h/5");
    assert_eq!(s.now_playing_id(), None);
    assert_eq!(s.playback.queue.get_current(), None);
    assert_eq!(s.player_status().state, PlayerState::Stopped);
    assert_eq!(s.queue_ids(), vec![TrackId(12)]);
}

#[test]
fn a_player_may_decline_single_renditions() {
    let mut e = env();
    let a = Rendition::fresh_at(SourceId::new("http"), "a".to_string(), 1, Quality::Unknown, at(0));
    let b = Rendition::fresh_at(SourceId::new("http"), "b".to_string(), 1, Quality::Unknown, at(0));
    e.players[0].declines.insert(medley::store::rendition_key("http", "b"), ());
    e.players[1].accepts.push(SourceId::new("http"));
    assert_eq!(e.pick_player(&a), Some(1));
    assert_eq!(e.pick_player(&b), Some(2));
    e.players[1].accepts.pop();
    assert_eq!(e.pick_player(&b), None);
}

#[test]
fn sources_are_listed_in_order() {
    let mut s = session();
    let names: Vec<String> = s.source_ids().iter().map(|i| i.as_str().to_string()).collect();
    assert_eq!(names, vec!["http".to_string(), "spotify".to_string()]);
    assert_eq!(s.registered_sources(), "http, spotify");
    s.sources.clear();
    assert_eq!(s.registered_sources(), "(none)");
}

#[test]
fn playlists_of_sources_are_fetched_once() {
    let mut s = session();
    let first = s.ensure_remote_playlists(0);
    assert!(first.iter().any(|f| matches!(f, Fetch::Folders { .. })));
    assert!(!s.ensure_remote_playlists(1).iter().any(|f| matches!(f, Fetch::Folders { .. })));
    assert!(s.remote_playlists_loading(&SourceId::new("http")));
    assert!(s.remote_playlists(&SourceId::new("http")).is_empty());
}

#[test]
fn warnings_are_counted_once() {
    let mut s = session();
    s.warn("config", "bad");
    s.warn("config", "bad");
    assert_eq!(s.background_failures().len(), 1);
    s.record_setup_result(&SourceId::new("spotify"), PluginHealth::Fail("no login".to_string()));
    assert_eq!(s.warning_count(), s.plugin_statuses().iter().filter(|(_, h)| !h.is_ok()).count() as u64 + 1);
}

#[test]
fn settings_are_changed() {
    let mut s = session();
    s.set_vis_fps(500);
    assert_eq!(s.cfg.vis.fps, 60);
    s.set_status_line(false);
    assert!(!s.cfg.status_line);
    s.set_source_enabled("http", false);
    assert_eq!(s.cfg.source_enabled("http"), Some(false));
    assert_eq!(s.cfg.source_enabled("local"), None);
    assert_eq!(s.set_scan_enabled(true), ScanMode::CacheOnly);
    assert_eq!(s.set_scan_enabled(false), ScanMode::Disabled);
    assert!(s.check_for_update(false));
    assert!(!s.check_for_update(true));
    assert!(s.checks_at(0, false));
    assert!(!s.checks_at(1, false));
    s.set_auto_update(false);
    assert!(!s.maybe_check_for_update(false));
}

#[test]
fn the_queue_survives_a_restart() {
    let mut s = session();
    run(&mut s, Command::Enqueue(TrackId(11)));
    run(&mut s, Command::Enqueue(TrackId(10)));
    s.save_queue();
    let store = std::mem::replace(&mut s.catalog.store, MemStore::new());
    let again = Session::new(Config::first_run(), Bus::new(), store, Vec::new(), &Vec::new(), &Vec::new());
    assert_eq!(again.queue_ids(), vec![TrackId(11), TrackId(10)]);
    assert!(again.playlists().iter().all(|p| p.id != PlaylistId(0)));
}

#[test]
fn removals_are_confirmed() {
    let s = session();
    let cmd = Command::TogglePlaylistMembership {
        track: TrackId(10),
        playlist: HotkeyTarget::Local(PlaylistId(50)),
        position: None,
    };
    let prompt = s.removal_prompt(&cmd);
    assert!(prompt.is_none() || prompt.unwrap().contains("Mix"));
}

#[test]
fn exports_are_written() {
    let mut s = session();
    let (d, requests) = run(&mut s, Command::ExportM3uTo { playlist: PlaylistId(50), path: "/tmp/mix.m3u8".to_string() });
    match d {
        Dispatch::Done(m) => assert_eq!(m, "exported /tmp/mix.m3u8 (1 tracks)"),
        _ => panic!("expected a message"),
    }
    match &requests[0] {
        Request::WriteFile { path, text } => {
            assert_eq!(path, "/tmp/mix.m3u8");
            assert!(text.contains("http://h/1"));
        },
        _ => panic!("expected a file"),
    }
    assert!(matches!(run(&mut s, Command::Quit).0, Dispatch::Quit));
}

#[test]
fn imported_playlists_merge_with_the_library() {
    let mut s = session();
    let doc = medley::parse_m3u("#EXTM3U\n#PLAYLIST:In\n#EXTINF:100,Band - One\nhttp://h/1\n#EXTINF:50,X - New\n/m/new.mp3\n").unwrap();
    let recognized = vec![Some("http".to_string()), None];
    let ids = vec![TrackId(900), TrackId(901)];
    let tempos: StrMap<String> = StrMap::new();
    let r = s.import_m3u(&doc, "/m", &None, &recognized, &tempos, at(5), &ids, PlaylistId(600)).unwrap();
    assert!(matches!(r, Dispatch::Done(_)));
    let items = s.playlist_track_ids(PlaylistId(600));
    assert_eq!(items.len(), 2);
    assert_eq!(items[0], TrackId(10));
    assert!(s.catalog.store.has_track(items[1]));
}

#[test]
fn files_are_added() {
    let mut s = session();
    let paths = vec!["/m/A - B.mp3".to_string()];
    let mut files: StrMap<()> = StrMap::new();
    files.insert("/m/A - B.mp3".to_string(), ());
    let r = s.add_files_to_playlist(Some(PlaylistId(50)), &paths, "/m", &vec![None], &files, at(5), &vec![TrackId(950)]).unwrap();
    assert!(matches!(r, Dispatch::Done(_)));
    let items = s.playlist_track_ids(PlaylistId(50));
    assert_eq!(items, vec![TrackId(10), TrackId(950)]);
    assert_eq!(s.tracks_for(&vec![TrackId(950)])[0].title, "B");
}

#[test]
fn changes_of_the_queue_and_of_the_history_are_counted() {
    let mut s = session();
    let counters = |s: &Session| (s.playback.queue.queue_gen(), s.playback.queue.history_gen());
    assert_eq!(counters(&s), (0, 1));
    run(&mut s, Command::Enqueue(TrackId(11)));
    assert_eq!(counters(&s), (1, 1));
    run(&mut s, Command::Wedge(TrackId(12)));
    assert_eq!(counters(&s), (2, 1));
    run(&mut s, Command::Play(TrackId(10)));
    assert_eq!(counters(&s), (2, 2));
    run(&mut s, Command::Play(TrackId(11)));
    assert_eq!(counters(&s), (3, 3));
    run(&mut s, Command::Next);
    assert_eq!(counters(&s), (4, 4));
    run(&mut s, Command::Previous);
    assert_eq!(counters(&s), (5, 5));
    run(&mut s, Command::ToggleShuffle);
    assert_eq!(counters(&s), (5, 5));
    run(&mut s, Command::ClearQueue);
    assert_eq!(counters(&s), (6, 5));
    let ev = CoreEvent::PlayRequested(TrackId(12));
    s.on_event(&ev, &status(PlayerState::Playing), &env());
    assert_eq!(counters(&s), (6, 6));
}

#[test]
fn events_move_the_revision_unless_nothing_shown_changes() {
    let mut s = session();
    let mut revision = s.revision();
    for ev in [
        CoreEvent::Player(PlayerEvent::Progress { position_ms: 5, duration_ms: 10 }),
        CoreEvent::BackgroundFailure { context: "scan".to_string(), message: "no disk".to_string() },
    ] {
        s.on_event(&ev, &status(PlayerState::Playing), &env());
        assert_eq!(s.revision(), revision);
    }
    for ev in [
        CoreEvent::TrackUpdated(TrackId(10)),
        CoreEvent::QueueChanged,
        CoreEvent::PlaylistsChanged,
        CoreEvent::DeferredLoad(7),
        CoreEvent::PlayRequested(TrackId(10)),
        CoreEvent::CacheFallbackReady(TrackId(11)),
        CoreEvent::SearchHit { search: 99, track: TrackId(10) },
        CoreEvent::Player(PlayerEvent::Paused),
        CoreEvent::Player(PlayerEvent::PreloadHint { source: SourceId::new("http"), uri: "http://h/1".to_string() }),
    ] {
        s.on_event(&ev, &status(PlayerState::Playing), &env());
        assert_eq!(s.revision(), revision + 1);
        revision = s.revision();
    }
}
