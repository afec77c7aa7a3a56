use medley::idmap::IdMap;
use medley::moment::Moment;
use medley::strmap::{less_text, StrMap};
use medley::{
    Bus, Catalog, CoreEvent, Error, LinkReason, MemStore, Playlist, PlaylistId, Quality, Queue, Rendition,
    RepeatSetting, Search, SourceId, Track, TrackId,
};

fn at(secs: i64) -> Moment {
    Moment::new(secs, 0).unwrap()
}

fn track(id: u128, title: &str, source: &str, uri: &str, ms: u32) -> Track {
    let r = Rendition::fresh_at(SourceId::new(source), uri.to_string(), ms, Quality::Unknown, at(0));
    Track::fresh_with(TrackId(id), title.to_string(), vec!["Band".to_string()], r)
}

fn list(id: u128, items: &[u128]) -> Playlist {
    Playlist {
        id: PlaylistId(id),
        name: "L".to_string(),
        notes: String::new(),
        items: items.iter().map(|i| TrackId(*i)).collect(),
    }
}

#[test]
fn maps_keep_their_keys_in_order() {
    let mut m: StrMap<u32> = StrMap::new();
    m.insert("b".to_string(), 2);
    m.insert("a".to_string(), 1);
    m.insert("b".to_string(), 3);
    assert_eq!(m.len(), 2);
    assert_eq!(m.key_at(0), "a");
    assert_eq!(m.get("b"), Some(&3));
    assert_eq!(m.take("a"), Some(1));
    assert!(!m.contains_key("a"));
    assert!(less_text("a", "ab"));
    assert!(!less_text("b", "ab"));

    let mut n: IdMap<u32> = IdMap::new();
    n.insert(5, 50);
    n.insert(2, 20);
    assert_eq!(n.key_at(0), 2);
    assert_eq!(n.get(5), Some(&50));
    n.remove(5);
    assert!(!n.contains_key(5));
}

#[test]
fn stores_find_tracks() {
    let mut s = MemStore::new();
    let mut t = track(1, "Söng", "http", "u", 10);
    t.isrc = Some("abC".to_string());
    s.upsert_track(&t);
    assert!(s.has_track(TrackId(1)));
    assert_eq!(s.get_track(TrackId(1)).unwrap().title, "Söng");
    assert_eq!(s.track_by_rendition(&SourceId::new("http"), "u").unwrap().id, TrackId(1));
    assert!(s.track_by_rendition(&SourceId::new("http"), "v").is_none());
    assert_eq!(s.track_by_isrc("abC").unwrap().id, TrackId(1));
    assert!(s.track_by_isrc("ABC").is_none());
    assert_eq!(s.tracks_by_title_norm("song").len(), 1);
    s.delete_track(TrackId(1));
    assert!(s.get_track(TrackId(1)).is_none());
    assert!(s.track_by_isrc("abC").is_none());
    assert!(s.track_by_rendition(&SourceId::new("http"), "u").is_none());
}

#[test]
fn an_updated_track_is_no_longer_found_by_what_it_was() {
    let mut s = MemStore::new();
    s.upsert_track(&track(1, "Old", "http", "u", 10));
    s.upsert_track(&track(1, "New", "http", "v", 10));
    assert!(s.track_by_rendition(&SourceId::new("http"), "u").is_none());
    assert_eq!(s.track_by_rendition(&SourceId::new("http"), "v").unwrap().title, "New");
    assert!(s.tracks_by_title_norm("old").is_empty());
    assert_eq!(s.all_tracks().len(), 1);
}

#[test]
fn stores_keep_playlists_and_remote_lists() {
    let mut s = MemStore::new();
    s.upsert_playlist(&list(4, &[1, 2]));
    assert_eq!(s.get_playlist(PlaylistId(4)).unwrap().items.len(), 2);
    assert_eq!(s.playlist_ids(), vec![PlaylistId(4)]);
    s.delete_playlist(PlaylistId(4));
    assert!(s.get_playlist(PlaylistId(4)).is_none());
    s.set_remote_playlist_ids("k", &vec![TrackId(3)]);
    assert_eq!(s.remote_playlist_ids("k"), vec![TrackId(3)]);
    assert!(s.remote_playlist_ids("other").is_empty());
    s.set_remote_playlist_folders("spotify", &vec![("A".to_string(), "a".to_string())]);
    assert_eq!(s.remote_playlist_folders("spotify").len(), 1);
}

#[test]
fn the_same_recording_is_ingested_once() {
    let mut c = Catalog::new(MemStore::new());
    let mut bus = Bus::new();
    let a = c.ingest_with(&track(1, "Song", "http", "u", 200_000), TrackId(11), &mut bus);
    assert_eq!(a, TrackId(11));
    let b = c.ingest_with(&track(2, "song", "spotify", "s", 201_000), TrackId(12), &mut bus);
    assert_eq!(b, TrackId(11));
    let t = c.store.get_track(TrackId(11)).unwrap();
    assert_eq!(t.renditions.len(), 2);
    assert_eq!(t.renditions[1].link, LinkReason::Fuzzy);
    let again = c.ingest_with(&track(3, "song", "spotify", "s", 201_000), TrackId(13), &mut bus);
    assert_eq!(again, TrackId(11));
    assert_eq!(c.store.get_track(TrackId(11)).unwrap().renditions.len(), 2);
    let other = c.ingest(&track(3, "Another", "spotify", "x", 1), &mut bus);
    assert_ne!(other, TrackId(11));
}

#[test]
fn no_track_holds_a_rendition_twice() {
    let mut c = Catalog::new(MemStore::new());
    let mut bus = Bus::new();
    for (source, uri) in [("http", "u"), ("spotify", "s"), ("http", "u"), ("spotify", "s"), ("http", "v"), ("http", "v")] {
        c.ingest_with(&track(1, "Song", source, uri, 200_000), TrackId(11), &mut bus);
    }
    let t = c.store.get_track(TrackId(11)).unwrap();
    let held: Vec<(&str, &str)> = t.renditions.iter().map(|r| (r.source.as_str(), r.uri.as_str())).collect();
    assert_eq!(held, vec![("http", "u"), ("spotify", "s"), ("http", "v")]);
}

#[test]
fn linked_tracks_become_one() {
    let mut c = Catalog::new(MemStore::new());
    let mut bus = Bus::new();
    c.store.upsert_track(&track(1, "A", "http", "u", 1));
    c.store.upsert_track(&track(2, "B", "spotify", "s", 1));
    c.store.upsert_playlist(&list(4, &[2]));
    assert!(c.link(TrackId(1), TrackId(2), &mut bus).is_ok());
    assert_eq!(c.store.get_track(TrackId(1)).unwrap().renditions.len(), 2);
    assert!(c.store.get_track(TrackId(2)).is_none());
    assert_eq!(c.store.get_playlist(PlaylistId(4)).unwrap().items, vec![TrackId(1)]);
    assert!(matches!(c.link(TrackId(1), TrackId(9), &mut bus), Err(Error::NotFound)));
    assert!(c.link(TrackId(9), TrackId(9), &mut bus).is_ok());
    assert!(c.unlink(TrackId(1), &SourceId::new("spotify"), &mut bus).is_ok());
    assert_eq!(c.store.get_track(TrackId(1)).unwrap().renditions.len(), 1);
    assert!(matches!(c.unlink(TrackId(7), &SourceId::new("spotify"), &mut bus), Err(Error::NotFound)));
}

#[test]
fn the_queue_is_first_in_first_out() {
    let mut q = Queue::new();
    let mut bus = Bus::new();
    q.append(TrackId(1), &mut bus);
    q.append_many(&vec![TrackId(2), TrackId(3)], &mut bus);
    q.play_next(TrackId(4), &mut bus);
    q.play_next_many(&vec![TrackId(5), TrackId(6)], &mut bus);
    assert_eq!(q.snapshot(), vec![TrackId(5), TrackId(6), TrackId(4), TrackId(1), TrackId(2), TrackId(3)]);
    assert_eq!(q.window(1, 2), vec![TrackId(6), TrackId(4)]);
    assert_eq!(q.pop_front(&mut bus), Some(TrackId(5)));
    assert!(q.remove_track(TrackId(4), &mut bus));
    assert!(!q.remove_track(TrackId(44), &mut bus));
    q.remove_at(0, &mut bus);
    assert_eq!(q.snapshot(), vec![TrackId(1), TrackId(2), TrackId(3)]);
    assert_eq!(q.len(), 3);
    q.clear(&mut bus);
    assert!(q.is_empty());
    assert_eq!(q.pop_front(&mut bus), None);
    assert!(bus.drain().iter().all(|e| matches!(e, CoreEvent::QueueChanged)));
}

#[test]
fn plays_are_remembered() {
    let mut q = Queue::new();
    assert_eq!(q.record_played_at(TrackId(1), at(1)), Some(at(1)));
    assert_eq!(q.record_played_at(TrackId(1), at(2)), None);
    assert_eq!(q.record_played_at(TrackId(2), at(3)), Some(at(3)));
    assert!(q.record_played(TrackId(3)).is_some());
    assert_eq!(q.history_snapshot(), vec![TrackId(1), TrackId(2), TrackId(3)]);
    assert_eq!(q.history_window(0, 2), vec![TrackId(3), TrackId(2)]);
    assert_eq!(q.previous_from_history(), Some(TrackId(2)));
    assert_eq!(q.history_len(), 2);
    assert_eq!(q.previous_from_history(), Some(TrackId(1)));
    assert_eq!(q.previous_from_history(), None);
    let many: Vec<(TrackId, Moment)> = (0..5_001u128).map(|i| (TrackId(i), at(i as i64))).collect();
    q.restore_history(&many);
    assert_eq!(q.history_len(), 5_000);
    assert_eq!(q.history_window(0, 1), vec![TrackId(5_000)]);
}

#[test]
fn histories_of_sources_are_merged_by_time() {
    let mut q = Queue::new();
    q.restore_history(&vec![(TrackId(1), at(10)), (TrackId(2), at(30))]);
    let counted = q.history_gen();
    q.merge_new_history(&Vec::new());
    assert_eq!(q.history_gen(), counted);
    q.merge_new_history(&vec![(TrackId(3), at(20))]);
    assert_eq!(q.history_gen(), counted + 1);
    assert_eq!(q.history_snapshot(), vec![TrackId(1), TrackId(3), TrackId(2)]);
}

#[test]
fn order_settings() {
    let mut q = Queue::new();
    let mut bus = Bus::new();
    q.set_repeat(RepeatSetting::RepeatTrack);
    assert_eq!(q.get_repeat(), RepeatSetting::RepeatTrack);
    q.set_shuffle(true);
    assert!(q.get_shuffle());
    q.set_current(Some(TrackId(8)), &mut bus);
    assert_eq!(q.get_current(), Some(TrackId(8)));
    q.stop(&mut bus);
    assert_eq!(q.get_current(), None);
}

#[test]
fn the_front_end_is_woken_once() {
    let mut bus = Bus::with_sink();
    assert!(bus.send(CoreEvent::QueueChanged));
    assert!(!bus.send(CoreEvent::QueueChanged));
    bus.clear_wake();
    assert!(bus.send(CoreEvent::PlaylistsChanged));
    assert_eq!(bus.drain().len(), 3);
    assert!(bus.drain().is_empty());
    let mut quiet = Bus::new();
    assert!(!quiet.send(CoreEvent::QueueChanged));
}

#[test]
fn only_the_results_of_wanted_searches_count() {
    let mut s = Search::new();
    let mut c = Catalog::new(MemStore::new());
    let mut bus = Bus::new();
    let one = s.run();
    let two = s.run();
    assert_ne!(one, two);
    s.forget(one);
    assert!(!s.wanted(one));
    assert!(s.wanted(two));
    s.on_hit(one, &track(1, "A", "http", "u", 1), TrackId(1), &mut c, &mut bus);
    assert!(bus.drain().is_empty());
    s.on_hit(two, &track(1, "A", "http", "u", 1), TrackId(1), &mut c, &mut bus);
    assert!(bus.drain().iter().any(|e| matches!(e, CoreEvent::SearchHit { .. })));
    s.on_done(two, &SourceId::new("http"), Ok(()), &mut bus);
    assert!(bus.drain().iter().any(|e| matches!(e, CoreEvent::SearchDone { .. })));
    s.on_done(two, &SourceId::new("http"), Err(Error::NotFound), &mut bus);
    match &bus.drain()[..] {
        [CoreEvent::BackgroundFailure { context, message }] => {
            assert_eq!(context, "http");
            assert_eq!(message, "search: not found");
        }
        other => panic!("expected a failure, got {other:?}"),
    }
    s.on_done(one, &SourceId::new("http"), Err(Error::NotFound), &mut bus);
    assert!(bus.drain().is_empty());
}
