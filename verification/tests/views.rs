use medley::command::{Command, Request};
use medley::env::Env;
use medley::folders::PLAYLISTS_RETRY_FLOOR;
use medley::idmap::IdMap;
use medley::import::import_ids;
use medley::moment::Moment;
use medley::remote::new_ids;
use medley::scan::{
    unopened_outcome, Access, OpenedStep, Outcome, ScanDriver, ScanMode, Verdict, Walk, WalkStep, PASS_SPACING,
    PRIORITY_RETRY_TIMEOUT,
};
use medley::playback::Effect;
use medley::session::SourceFacts;
use medley::session_events::Fetch;
use medley::ranges::Span;
use medley::stream::{FillStep, Intent, RangeWait, Reader, State, StreamState, FILL_CHUNK};
use medley::strmap::StrMap;
use medley::view_cache::{remote_playlist_cache_key, ViewCache};
use medley::{
    parse_m3u, BrowseNode, Bus, Catalog, Config, CoreEvent, Error, HotkeyTarget, ItemKind, ListRef, MemStore,
    PlayerState, PlayerStatus, Playlist, PlaylistId, Quality, Rendition, Resolution, Resolver, Search, Session,
    SourceId, Target, Track, TrackId,
};

fn at(secs: i64) -> Moment {
    Moment::new(secs, 0).unwrap()
}

fn track(id: u128, title: &str, uri: &str) -> Track {
    let r = Rendition::fresh_at(SourceId::new("http"), uri.to_string(), 100_000, Quality::Unknown, at(0));
    Track::fresh_with(TrackId(id), title.to_string(), vec!["Band".to_string()], r)
}

fn env() -> Env {
    Env {
        players: Vec::new(),
        cached: StrMap::new(),
        files: StrMap::new(),
        now: at(1_000),
        ms: 1_000_000,
        deal: vec![0, 1],
    }
}

fn session() -> Session {
    let mut store = MemStore::new();
    store.upsert_track(&track(10, "One", "http://h/1"));
    store.upsert_track(&track(11, "Two", "http://h/2"));
    store.upsert_playlist(&Playlist {
        id: PlaylistId(50),
        name: "Mix".to_string(),
        notes: String::new(),
        items: vec![TrackId(10), TrackId(11), TrackId(99)],
    });
    let facts = SourceFacts {
        id: SourceId::new("http"),
        liked: None,
        synthetic: Vec::new(),
        adds_first: Vec::new(),
        has_albums: false,
    };
    Session::new(Config::first_run(), Bus::new(), store, vec![facts], &Vec::new(), &Vec::new())
}

fn run(s: &mut Session, cmd: Command) -> Vec<Request> {
    let tempos: StrMap<String> = StrMap::new();
    s.dispatch(cmd, &env(), &tempos, PlaylistId(77)).unwrap().requests
}

#[test]
fn playlists_are_shown_in_windows() {
    let s = session();
    assert_eq!(s.playlist_len(PlaylistId(50)), 3);
    assert_eq!(s.playlist_len(PlaylistId(51)), 0);
    let shown: Vec<TrackId> = s.playlist_window(PlaylistId(50), 1, 5).iter().map(|t| t.id).collect();
    assert_eq!(shown, vec![TrackId(11)]);
    assert!(s.playlist_window(PlaylistId(50), 7, 5).is_empty());
}

#[test]
fn the_queue_is_shown_in_windows() {
    let mut s = session();
    run(&mut s, Command::Enqueue(TrackId(11)));
    run(&mut s, Command::Wedge(TrackId(10)));
    assert_eq!(s.queue_ids(), vec![TrackId(10), TrackId(11)]);
    assert_eq!(s.queue_window(1, 1).iter().map(|t| t.title.clone()).collect::<Vec<_>>(), vec!["Two".to_string()]);
}

#[test]
fn the_list_that_plays_is_shown() {
    let mut s = session();
    assert_eq!(s.playing_context_len(), 0);
    let before = s.context_gen();
    run(
        &mut s,
        Command::PlayContext {
            tracks: vec![TrackId(11), TrackId(10), TrackId(11)],
            index: 2,
            remote: None,
            local: Some(PlaylistId(50)),
            name: Some("Mix".to_string()),
        },
    );
    assert_eq!(s.playing_context_len(), 3);
    assert!(s.context_gen() > before);
    assert_eq!(s.playing_context_name(), Some("Mix".to_string()));
    let titles: Vec<String> = s.playing_context_window(0, 2).iter().map(|t| t.title.clone()).collect();
    assert_eq!(titles, vec!["Two".to_string(), "One".to_string()]);
    assert_eq!(s.playing_playlist().unwrap().to_text(), HotkeyTarget::Local(PlaylistId(50)).to_text());
}

#[test]
fn the_playing_row_is_the_one_that_was_picked() {
    let mut s = session();
    let rows = vec![TrackId(11), TrackId(10), TrackId(11)];
    assert_eq!(s.playing_row(&rows, &ListRef::Context), None);
    s.playback.now_playing = Some(TrackId(11));
    assert_eq!(s.playing_row(&rows, &ListRef::Other), Some(0));
    assert_eq!(s.playing_row(&vec![TrackId(10)], &ListRef::Context), None);
}

#[test]
fn what_a_player_says_is_shown() {
    let mut s = session();
    s.set_status(&PlayerStatus {
        state: PlayerState::Paused,
        position_ms: 7,
        duration_ms: 9,
        buffering: false,
        download_pct: None,
    });
    assert_eq!(s.player_status().state, PlayerState::Paused);
    assert_eq!(s.player_status().position_ms, 7);
}

#[test]
fn changes_are_counted_where_they_are_made() {
    let mut s = session();
    let (w, r, h) = (s.warnings_revision(), s.removed_tracks_gen(), s.hotkeys_gen());
    s.warn("a", "b");
    assert!(s.warnings_revision() > w);
    assert_eq!(s.removed_tracks_gen(), r);
    s.set_hotkeys(&vec![('5', HotkeyTarget::Local(PlaylistId(50)))]);
    assert!(s.hotkeys_gen() > h);
    run(&mut s, Command::LinkPick(TrackId(10)));
    run(&mut s, Command::LinkPick(TrackId(11)));
    assert!(s.removed_tracks_gen() > r);
    s.set_show_hints(false);
    assert!(!s.cfg.show_hints);
    s.set_media_cache_dir("/big".to_string());
    assert_eq!(s.cfg.media_cache_dir, "/big");
}

#[test]
fn what_a_plugin_brings_along_is_taken_over() {
    let mut s = session();
    let before = s.revision();
    s.apply_wiring(None);
    assert_eq!(s.source_ids().len(), 1);
    assert_eq!(s.revision(), before + 1);
    s.apply_wiring(Some(SourceFacts {
        id: SourceId::new("spotify"),
        liked: Some(BrowseNode::Path("liked".to_string())),
        synthetic: vec![BrowseNode::Path("daily".to_string())],
        adds_first: Vec::new(),
        has_albums: true,
    }));
    assert_eq!(s.registered_sources(), "http, spotify");
    assert_eq!(s.revision(), before + 2);
}

#[test]
fn a_list_that_failed_is_tried_again_after_a_while() {
    let mut c = ViewCache::new();
    let store = MemStore::new();
    let mut bus = Bus::new();
    let (source, node) = (SourceId::new("http"), BrowseNode::Path("list".to_string()));
    assert!(c.ensure_remote_playlist_loading(&source, &node, 0, true, &store).is_some());
    assert!(c.ensure_remote_playlist_loading(&source, &node, 0, true, &store).is_none());
    c.page_failed(&source, &node, &Error::Other("gone".to_string()), 5, &mut bus);
    assert!(bus.drain().iter().any(|e| matches!(e, CoreEvent::BackgroundFailure { message, .. } if message.ends_with(": gone"))));
    assert!(c.ensure_remote_playlist_loading(&source, &node, 6, true, &store).is_none());
    assert!(c.ensure_remote_playlist_loading(&source, &node, 5 + PLAYLISTS_RETRY_FLOOR, true, &store).is_some());
}

#[test]
fn looking_at_a_list_brings_back_what_was_saved_and_asks_for_more() {
    let mut s = session();
    let (source, node) = (SourceId::new("http"), BrowseNode::Path("list".to_string()));
    let key = remote_playlist_cache_key(&source, &node);
    s.catalog.store.set_remote_playlist_ids(&key, &vec![TrackId(11), TrackId(10)]);
    assert_eq!(s.cache.live_ids(&source, &node, &s.catalog.store), vec![TrackId(11), TrackId(10)]);
    let (ids, fetch) = s.remote_playlist_track_ids(&source, &node);
    assert_eq!(ids, vec![TrackId(11), TrackId(10)]);
    assert!(matches!(fetch, Some(Fetch::Tracks { .. })));
    let (n, fetch) = s.remote_playlist_len(&source, &node);
    assert_eq!(n, 2);
    assert!(fetch.is_none());
    let (rows, _) = s.remote_playlist_window(&source, &node, 1, 5);
    assert_eq!(rows.iter().map(|t| t.id).collect::<Vec<_>>(), vec![TrackId(10)]);
    let (ids, fetch) = s.remote_playlist_track_ids(&SourceId::new("gone"), &node);
    assert!(ids.is_empty());
    assert!(fetch.is_none());
}

#[test]
fn the_end_of_a_remote_list_is_looked_at() {
    let mut s = session();
    let (source, node) = (SourceId::new("http"), BrowseNode::Path("list".to_string()));
    run(
        &mut s,
        Command::PlayContext {
            tracks: vec![TrackId(10)],
            index: 0,
            remote: Some((source.clone(), node.clone())),
            local: None,
            name: None,
        },
    );
    let key = remote_playlist_cache_key(&source, &node);
    s.catalog.store.set_remote_playlist_ids(&key, &vec![TrackId(10), TrackId(11)]);
    s.playback.effects.clear();
    run(&mut s, Command::Next);
    assert!(s.playback.effects.iter().any(|e| matches!(e, Effect::LookAt { .. })));
    assert_eq!(s.playing_context_ids(), vec![TrackId(10), TrackId(11)]);
}

#[test]
fn an_address_is_added() {
    let mut s = session();
    let gen = s.results_gen();
    match s.add_uri(&None, TrackId(5)) {
        Err(Error::Other(why)) => assert_eq!(why, "not a playable URL"),
        _ => panic!("nothing was looked up"),
    }
    assert_eq!(s.add_uri(&Some(track(1, "Three", "http://h/3")), TrackId(5)).unwrap(), TrackId(5));
    assert_eq!(s.tracks_for(&vec![TrackId(5)])[0].title, "Three");
    assert_eq!(s.add_uri(&Some(track(1, "One", "http://h/1")), TrackId(6)).unwrap(), TrackId(10));
    assert!(s.results_gen() >= gen);
}

#[test]
fn collections_are_told_of_while_they_are_wanted() {
    let mut s = Search::new();
    let mut bus = Bus::new();
    let id = s.run();
    let node = BrowseNode::Path("x".to_string());
    s.on_collection(id, &SourceId::new("http"), ItemKind::Album, "Hits".to_string(), node, &mut bus);
    match &bus.drain()[..] {
        [CoreEvent::SearchCollection { search, name, .. }] => {
            assert_eq!(*search, id);
            assert_eq!(name, "Hits");
        },
        _ => panic!("expected the collection"),
    }
    s.forget(id);
    s.on_collection(id, &SourceId::new("http"), ItemKind::Album, "Hits".to_string(), BrowseNode::Root, &mut bus);
    assert!(bus.drain().is_empty());
}

#[test]
fn every_item_of_a_playlist_is_resolved() {
    let p = Playlist {
        id: PlaylistId(1),
        name: "P".to_string(),
        notes: String::new(),
        items: vec![TrackId(11), TrackId(99)],
    };
    let tracks = vec![track(10, "One", "u1"), track(11, "Two", "u2")];
    let r = Resolver::resolve_playlist(&p, &tracks, &Target::Playback, &vec![vec![false], vec![false]]);
    assert_eq!(r.len(), 2);
    assert_eq!(r[0].0, TrackId(11));
    assert!(matches!(&r[0].1, Resolution::Ready(x) if x.uri == "u2"));
    assert!(matches!(&r[1].1, Resolution::Gap { .. }));
}

#[test]
fn identifiers_for_an_import() {
    let doc = parse_m3u("#EXTM3U\n#EXTINF:1,A - B\nhttp://h/1\n/m/2.mp3\n").unwrap();
    assert_eq!(import_ids(&doc), 2);
    let ids = new_ids(import_ids(&doc));
    assert_eq!(ids.len(), 2);
    assert_ne!(ids[0], ids[1]);
}

#[test]
fn pages_are_folded_into_the_library() {
    let mut c = ViewCache::new();
    let mut catalog = Catalog::new(MemStore::new());
    let mut bus = Bus::new();
    let (source, node) = (SourceId::new("http"), BrowseNode::Path("list".to_string()));
    assert!(!c.remote_playlist_errored(&source, &node));
    let hits = vec![track(1, "A", "a"), track(2, "B", "b")];
    c.fold_page(&source, &node, &hits, 0, false, &vec![TrackId(21), TrackId(22)], &mut catalog, &mut bus);
    assert_eq!(c.shown_ids(&source, &node), vec![TrackId(21), TrackId(22)]);
    assert!(catalog.store.has_track(TrackId(22)));
    assert!(matches!(bus.drain().last(), Some(CoreEvent::PlaylistsChanged)));
    let (ids, fetch) = c.remote_playlist_confirmed_ids(&source, &node, true, &catalog.store);
    assert_eq!(ids, vec![TrackId(21), TrackId(22)]);
    assert!(fetch.is_none());
    assert_eq!(c.live_ids(&source, &node, &catalog.store), vec![TrackId(21), TrackId(22)]);
    assert!(!c.remote_playlist_errored(&source, &node));
}

#[test]
fn the_mode_of_the_scan_is_switched() {
    let mut d = ScanDriver::new(ScanMode::Active);
    d.prioritize(TrackId(1), 5);
    d.hold(&SourceId::new("http"), "a");
    d.hold(&SourceId::new("http"), "b");
    d.reap_held(&vec![true, false]);
    assert_eq!(d.held, vec![("http".to_string(), "a".to_string())]);
    assert_eq!(d.toggle_mode(&vec![true]), ScanMode::CacheOnly);
    assert!(d.held.is_empty());
    assert_eq!(d.priority.len(), 1);
    d.set_mode(ScanMode::Disabled, &Vec::new());
    assert!(d.priority.is_empty());
    assert_eq!(d.toggle_mode(&Vec::new()), ScanMode::Disabled);
}

#[test]
fn downloads_of_the_scan_are_kept_until_they_are_late() {
    let mut d = ScanDriver::new(ScanMode::Active);
    let http = SourceId::new("http");
    d.opened(&http, "a", Access::Peek, Some(false));
    d.opened(&http, "a", Access::Fetch, Some(true));
    d.opened(&http, "a", Access::Fetch, None);
    assert!(d.held.is_empty());
    d.opened(&http, "a", Access::Fetch, Some(false));
    d.opened(&http, "b", Access::Fetch, Some(false));
    assert_eq!(d.first_byte(&http, "c", None), OpenedStep::NextRendition);
    assert_eq!(d.first_byte(&http, "b", Some(true)), OpenedStep::Ready);
    assert_eq!(d.first_byte(&http, "a", Some(false)), OpenedStep::Late);
    assert_eq!(d.held, vec![("http".to_string(), "b".to_string())]);
    assert!(matches!(unopened_outcome(true), Outcome::Retry));
    assert!(matches!(unopened_outcome(false), Outcome::Skip));
}

#[test]
fn a_playing_track_is_tried_again_for_a_while() {
    let mut d = ScanDriver::new(ScanMode::Active);
    assert!(!d.retry_priority(TrackId(1), 0, false, 1));
    assert!(d.retry_priority(TrackId(1), 0, true, 1));
    assert!(!d.retry_priority(TrackId(1), 0, true, 1));
    assert_eq!(d.next_priority(), Some((TrackId(1), 0)));
    assert!(!d.retry_priority(TrackId(1), 0, true, PRIORITY_RETRY_TIMEOUT + 1));
}

#[test]
fn passes_are_spaced_and_woken() {
    let mut d = ScanDriver::new(ScanMode::Active);
    let mut w = Walk::new(0);
    assert!(matches!(d.wait_walk(None, w.earliest, 0), WalkStep::Run(inbox) if inbox.rebuild));
    w.begin(&Some(vec![TrackId(1), TrackId(2)]), &vec![(TrackId(2), false), (TrackId(3), true)], 10);
    let mut wanted: IdMap<()> = IdMap::new();
    wanted.insert(1, ());
    wanted.insert(3, ());
    assert_eq!(w.candidates.contains_key(1), wanted.contains_key(1));
    assert!(w.candidates.contains_key(3) && !w.candidates.contains_key(2));
    assert_eq!(w.earliest, 10 + PASS_SPACING);
    assert!(matches!(d.wait_walk(None, w.earliest, 11), WalkStep::Sleep));
    d.stream_ended();
    assert!(matches!(d.wait_walk(None, w.earliest, 11), WalkStep::SleepUntil(t) if t == w.earliest));
    d.register_plugin();
    assert!(matches!(d.wait_walk(None, w.earliest, w.earliest), WalkStep::Run(inbox) if inbox.rebuild));
    assert!(!w.after(TrackId(1), Verdict::Nothing, &mut d));
    assert!(!w.candidates.contains_key(1));
}

#[test]
fn gaps_are_filled_where_a_reader_waits() {
    let mut s = State::new(StreamState::Connecting);
    s.attach(Intent::Play);
    assert!(s.fill_step(0).is_none());
    s.set_len(10 * FILL_CHUNK);
    s.set_jumpable(true);
    s.record_write(0, 10);
    assert_eq!(s.fill_step(0), Some(FillStep::Read { at: 10, n: FILL_CHUNK }));
    s.begin_read(Reader { pos: 5 * FILL_CHUNK, play: true, marked: false });
    s.read_step(Reader { pos: 5 * FILL_CHUNK, play: true, marked: false }, 4, 0);
    assert_eq!(s.fill_step(10), Some(FillStep::Read { at: 5 * FILL_CHUNK, n: FILL_CHUNK }));
    s.record_write(10, 10 * FILL_CHUNK - 15);
    assert_eq!(s.fill_step(10), Some(FillStep::Read { at: 10 * FILL_CHUNK - 5, n: 5 }));
    s.record_write(10 * FILL_CHUNK - 5, 5);
    assert_eq!(s.fill_step(10), Some(FillStep::Finish));
}

#[test]
fn a_span_is_waited_for() {
    let mut s = State::new(StreamState::Connecting);
    s.attach(Intent::Fetch);
    s.set_len(100);
    s.record_write(0, 10);
    assert_eq!(s.range_wait(Span { start: 0, end: 10 }), RangeWait::Ready);
    assert_eq!(s.range_wait(Span { start: 0, end: 11 }), RangeWait::Pending);
    s.set_checkpoint(3);
    assert_eq!(s.checkpoint().0, 3);
    s.writer_dropped();
    assert_eq!(s.failure, Some("producer ended early".to_string()));
    s.cancel();
    assert_eq!(s.range_wait(Span { start: 0, end: 11 }), RangeWait::Stopped);
    assert!(!s.adopt(5));
}

#[test]
fn a_local_file_takes_the_place_of_a_download() {
    let mut s = State::new(StreamState::Connecting);
    s.attach(Intent::Fetch);
    assert!(s.adopt(5));
    assert_eq!(s.phase, StreamState::Done);
    assert_eq!(s.info().prefix, 5);
    assert_eq!(s.range_wait(Span { start: 0, end: 50 }), RangeWait::Ready);
}
