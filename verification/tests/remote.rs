use medley::enqueue::{queued_note, PendingEnqueue};
use medley::folders::{FolderStep, Folders};
use medley::hotkeys::Hotkeys;
use medley::idmap::IdMap;
use medley::moment::Moment;
use medley::remote::{Landing, Loaded, RemoteTracks};
use medley::revised::Revised;
use medley::scan::{
    opening_order, Access, Ending, Outcome, PluginFacts, ScanDriver, ScanMode, ScanStatus, StreamUse, TrackMeta, Verdict,
    Walk, WalkStep,
};
use medley::stream::StreamState;
use medley::strmap::StrMap;
use medley::view_cache::{await_membership, request, Await, Change, FolderKind, Membership, Request, ViewCache};
use medley::warnings::Warnings;
use medley::{
    BrowseNode, BuiltinAction, Bus, Catalog, CoreEvent, Error, HotkeyTarget, ItemKind, MemStore, MembershipOutcome, PlaylistId,
    PluginHealth, Quality, Queue, Rendition, SourceId, Track, TrackId,
};

fn at(secs: i64) -> Moment {
    Moment::new(secs, 0).unwrap()
}

fn track(id: u128, uri: &str) -> Track {
    let r = Rendition::fresh_at(SourceId::new("spotify"), uri.to_string(), 100_000, Quality::Unknown, at(0));
    Track::fresh_with(TrackId(id), format!("Song {uri}"), vec!["Band".to_string()], r)
}

fn spotify() -> SourceId {
    SourceId::new("spotify")
}

fn node() -> BrowseNode {
    BrowseNode::Path("list".to_string())
}

#[test]
fn a_list_is_fetched_page_by_page() {
    let mut l = RemoteTracks::empty();
    let b = l.start_browse(10).unwrap();
    assert!(l.start_browse(10).is_none());
    assert_eq!(l.page_landed(&vec![track(1, "a")], true, false, b, &spotify(), 0), Landing::Ingest(0));
    assert!(!l.tracks_folded(0, vec![track(1, "a")], true));
    let b = l.start_browse(10).unwrap();
    assert_eq!(b.cached_len, 1);
    assert_eq!(
        l.page_landed(&vec![track(1, "a"), track(2, "b")], false, false, b, &spotify(), 0),
        Landing::Ingest(1)
    );
    assert!(l.tracks_folded(1, vec![track(2, "b")], false));
    assert_eq!(l.ids(), vec![TrackId(1), TrackId(2)]);
    assert_eq!(l.loaded(TrackId(2)), Loaded::Complete(true));
    assert_eq!(l.loaded(TrackId(9)), Loaded::Complete(false));
    assert!(l.start_browse(10).is_none());
    assert!(l.row_holds(Some(1), TrackId(2)));
    assert!(!l.row_holds(Some(0), TrackId(2)));
}

#[test]
fn a_failed_page_keeps_the_list() {
    let (mut l, b) = RemoteTracks::hydrated(vec![track(1, "a")]);
    assert_eq!(l.page_landed(&Vec::new(), true, true, b, &spotify(), 5), Landing::Failed);
    assert_eq!(l.ids(), vec![TrackId(1)]);
    assert!(!l.change(true, None, false, &track(2, "b")));
    assert_eq!(l.ids(), vec![TrackId(1), TrackId(2)]);
    assert!(!l.change(true, None, true, &track(3, "c")));
    assert!(l.holds(TrackId(3)));
    assert!(!l.change(false, Some(0), false, &track(3, "c")));
    assert_eq!(l.ids(), vec![TrackId(1), TrackId(2)]);
}

#[test]
fn changes_of_remote_lists_show_before_they_are_answered() {
    let mut c = ViewCache::new();
    let mut bus = Bus::new();
    let mut store = MemStore::new();
    let t = track(1, "a");
    assert!(c.set_remote_membership(&spotify(), &node(), &t, Change::Add, false, &mut bus));
    assert!(!c.set_remote_membership(&spotify(), &node(), &t, Change::Remove(None), false, &mut bus));
    assert_eq!(c.remote_membership(&spotify(), &node(), TrackId(1)), Membership::PendingAdd);
    assert_eq!(c.shown_ids(&spotify(), &node()), vec![TrackId(1)]);
    assert_eq!(c.remote_pending_ids(&spotify(), &node()), vec![TrackId(1)]);
    assert!(c.remote_pending_rows(&spotify(), &node()).has(TrackId(1), 0));
    let failed: Result<bool, Error> = Err(Error::Other("refused".to_string()));
    c.finish_change(&spotify(), &node(), &t, Change::Add, false, false, failed, &mut store, &mut bus);
    assert!(c.remote_pending_ids(&spotify(), &node()).is_empty());
    assert_eq!(c.shown_len(&spotify(), &node()), 0);
    assert_eq!(c.remote_membership(&spotify(), &node(), TrackId(1)), Membership::NotMember);
    assert!(matches!(
        bus.drain().last(),
        Some(CoreEvent::MembershipResult(MembershipOutcome::Failed(m))) if m == "Can't toggle \"Band - Song a\": refused"
    ));
}

#[test]
fn likes_are_told_with_their_track() {
    let mut c = ViewCache::new();
    let mut bus = Bus::new();
    let mut store = MemStore::new();
    let t = track(1, "a");
    assert!(c.set_remote_membership(&spotify(), &node(), &t, Change::Add, true, &mut bus));
    c.finish_change(&spotify(), &node(), &t, Change::Add, true, true, Ok(true), &mut store, &mut bus);
    match bus.drain().last() {
        Some(CoreEvent::LikeResult { track, like, outcome: MembershipOutcome::Changed(m) }) => {
            assert_eq!(*track, TrackId(1));
            assert!(*like);
            assert!(m.starts_with("Liked \"Band - Song a\" on spotify"));
        },
        other => panic!("{other:?}"),
    }
    let failed: Result<bool, Error> = Err(Error::Other("offline".to_string()));
    c.finish_change(&spotify(), &node(), &t, Change::Remove(None), true, true, failed, &mut store, &mut bus);
    match bus.drain().last() {
        Some(CoreEvent::LikeResult { track, like, outcome: MembershipOutcome::Failed(m) }) => {
            assert_eq!(*track, TrackId(1));
            assert!(!*like);
            assert!(m.starts_with("Couldn't unlike \"Band - Song a\" on spotify"));
        },
        other => panic!("{other:?}"),
    }
}

#[test]
fn every_copy_of_a_track_follows_a_write() {
    let mut c = ViewCache::new();
    let mut store = MemStore::new();
    store.upsert_track(&track(1, "a"));
    store.set_remote_playlist_ids("spotify:list", &vec![TrackId(1), TrackId(1)]);
    assert!(c.ensure_tracks(&spotify(), &node(), 0, true, &store).is_some());
    let mut t = track(1, "a");
    t.title = "New".to_string();
    store.upsert_track(&t);
    c.refresh_cached_track(TrackId(1), &store);
    let titles: Vec<String> = c.shown_window(&spotify(), &node(), 0, 5).iter().map(|t| t.title.clone()).collect();
    assert_eq!(titles, vec!["New".to_string(), "New".to_string()]);
}

#[test]
fn what_is_asked_of_a_source() {
    assert_eq!(request(true, true, false), Request::Nothing);
    assert_eq!(request(true, false, false), Request::Add);
    assert_eq!(request(false, true, true), Request::Remove);
    assert_eq!(request(false, true, false), Request::Refused);
    assert!(matches!(await_membership(None, 0, 10), Await::Wait));
    assert!(matches!(await_membership(None, 10, 10), Await::Failed(_)));
    assert!(matches!(await_membership(Some(Loaded::Complete(true)), 0, 10), Await::Member(true)));
    match await_membership(Some(Loaded::Broken), 0, 10) {
        Await::Failed(e) => assert_eq!(e.message(), "the playlist didn't load completely"),
        _ => panic!("expected a failure"),
    }
}

#[test]
fn folders_are_kept_for_the_next_run() {
    let mut c = ViewCache::new();
    let mut store = MemStore::new();
    let mut bus = Bus::new();
    assert!(c.ensure_folders(FolderKind::Playlists, &spotify(), 0, &store));
    let folders = vec![("Mix".to_string(), node())];
    assert_eq!(
        c.folders_landed(FolderKind::Playlists, &spotify(), &folders, false, false, true, &mut store, &mut bus),
        FolderStep::Done
    );
    c.folders_done(FolderKind::Playlists, &spotify(), None, &mut bus);
    assert_eq!(c.remote_playlists(&spotify()).len(), 1);
    assert!(c.remote_albums(&spotify()).is_empty());
    assert!(!c.remote_playlists_loading(&spotify()));
    let mut again = ViewCache::new();
    again.ensure_folders(FolderKind::Playlists, &spotify(), 0, &store);
    assert_eq!(again.remote_playlists(&spotify())[0].0, "Mix");
}

#[test]
fn a_short_answer_keeps_the_folders() {
    let mut f = Folders::hydrated(&vec![("A".to_string(), "a".to_string()), ("B".to_string(), "b".to_string())]);
    assert!(f.start(0));
    assert!(!f.start(1));
    assert_eq!(f.landed(&vec![("A".to_string(), BrowseNode::Path("a".to_string()))], true, false, true), FolderStep::Poll);
    assert_eq!(f.folders.len(), 2);
    assert_eq!(f.storable().len(), 2);
    assert_eq!(f.landed(&Vec::new(), false, false, true), FolderStep::Done);
    assert_eq!(f.folders.len(), 2);
    assert!(!f.settled);
    assert_eq!(f.landed(&vec![("A".to_string(), BrowseNode::Path("a".to_string()))], false, false, true), FolderStep::Done);
    assert_eq!(f.folders.len(), 1);
    assert!(f.settled);
}

#[test]
fn results_of_a_search_are_collected() {
    let mut c = ViewCache::new();
    let mut store = MemStore::new();
    store.upsert_track(&track(1, "a"));
    c.begin_search(4, "song".to_string());
    assert!(c.push_result(4, TrackId(1), &store));
    assert!(!c.push_result(5, TrackId(1), &store));
    assert!(c.push_collection_result(4, spotify(), ItemKind::Album, "Album".to_string(), node()));
    let r = c.results(4).unwrap();
    assert_eq!(r.query(), "song");
    assert_eq!(r.track_ids(), vec![TrackId(1)]);
    assert_eq!(r.tracks().len(), 1);
    assert_eq!(r.collections().len(), 1);
    assert!(!r.is_empty());
    c.forget_search(4);
    assert!(c.results(4).is_none());
}

#[test]
fn a_collection_is_queued_as_it_comes() {
    let mut p = PendingEnqueue {
        source: spotify(),
        node: node(),
        name: "Album".to_string(),
        appended: 0,
        deadline: 1_000,
    };
    let mut q = Queue::new();
    let mut bus = Bus::new();
    assert!(p.advance(&vec![TrackId(1)], false, true, &mut q, 0, &mut bus).is_none());
    let done = p.advance(&vec![TrackId(1), TrackId(2)], false, false, &mut q, 0, &mut bus);
    assert_eq!(done, Some("queued Album (2 tracks)".to_string()));
    assert_eq!(q.snapshot(), vec![TrackId(1), TrackId(2)]);
    assert_eq!(queued_note("X", 500, true), "queued X (500 tracks, first 500 only)");
    let many: Vec<TrackId> = (0..600u128).map(TrackId).collect();
    let mut p = PendingEnqueue { source: spotify(), node: node(), name: "Big".to_string(), appended: 0, deadline: 1 };
    let mut q = Queue::new();
    assert!(p.advance(&many, false, true, &mut q, 0, &mut bus).is_some());
    assert_eq!(q.len(), 500);
}

#[test]
fn keys_give_what_was_bound_to_them() {
    let mut k = Hotkeys::new();
    let list = HotkeyTarget::Local(PlaylistId(3));
    assert!(matches!(k.bind('7', HotkeyTarget::Local(PlaylistId(3))), Ok(None)));
    assert_eq!(k.key_of(&list), Some('7'));
    assert!(matches!(k.bind('7', HotkeyTarget::Local(PlaylistId(4))), Ok(Some(_))));
    assert_eq!(k.key_of(&list), None);
    let next = BuiltinAction::Next.default_key().unwrap();
    assert!(k.target_at(next).unwrap().is_builtin());
    assert!(k.bind('8', HotkeyTarget::Builtin(BuiltinAction::Next)).is_ok());
    assert!(k.target_at(next).is_none());
    assert_eq!(k.effective_key(&HotkeyTarget::Builtin(BuiltinAction::Next)), Some('8'));
    assert!(k.unbind(&HotkeyTarget::Builtin(BuiltinAction::Next)));
    assert_eq!(k.effective_key(&HotkeyTarget::Builtin(BuiltinAction::Next)), Some(next));
    assert!(HotkeyTarget::from_text("remote:spotify:a:b").unwrap().same(&HotkeyTarget::Remote(
        spotify(),
        BrowseNode::Path("a:b".to_string())
    )));
    assert!(HotkeyTarget::from_text("local:nonsense").is_none());
    assert!(HotkeyTarget::from_text("builtin:nonsense").is_none());
    assert_eq!(k.list().len(), 1);
}

#[test]
fn every_action_has_its_name_and_key() {
    for a in BuiltinAction::all() {
        assert_eq!(BuiltinAction::from_id(a.id()), Some(a));
        if let Some(key) = a.default_key() {
            assert_eq!(BuiltinAction::of_key(key), Some(a));
        }
    }
    assert_eq!(BuiltinAction::all().len(), 34);
    assert_eq!(BuiltinAction::of_key('\u{1}'), None);
}

#[test]
fn warnings_overlay_setups() {
    let mut w = Warnings::new();
    w.record_setup_result(&spotify(), PluginHealth::Fail("login failed".to_string()));
    w.refresh_plugin_health(&vec![(spotify(), PluginHealth::Warn("not logged in".to_string()))]);
    assert_eq!(w.health[0].1.message(), Some("login failed".to_string()));
    assert!(w.known_unwell(&spotify()));
    assert_eq!(w.warning_count(), 1);
    assert!(w.apply_probed_plugin_health(&vec![(spotify(), PluginHealth::Healthy)]));
    assert!(!w.apply_probed_plugin_health(&vec![(spotify(), PluginHealth::Healthy)]));
    assert!(w.known_well(&spotify()));
    assert!(w.apply_probed_plugin_health(&vec![(spotify(), PluginHealth::Warn("token expired".to_string()))]));
    assert_eq!(w.health[0].1.message(), Some("token expired".to_string()));
    w.record_setup_result(&spotify(), PluginHealth::Healthy);
    assert!(!w.apply_probed_plugin_health(&vec![(spotify(), PluginHealth::Warn("token expired".to_string()))]));
}

#[test]
fn writes_are_counted() {
    let mut r = Revised::new(5u32);
    let before = r.revision();
    *r.write() = 6;
    assert_eq!(*r.get(), 6);
    assert_ne!(r.revision(), before);
}

fn plugin(id: &str, needs_audio: bool) -> PluginFacts {
    PluginFacts { id: id.to_string(), needs: true, needs_audio, min_interval: 1_000 }
}

#[test]
fn plugins_scan_one_after_the_other() {
    let mut d = ScanDriver::new(ScanMode::Active);
    let t = track(1, "a");
    let plugins = vec![plugin("bpm", false), plugin("key", false)];
    let (v, pick) = d.next_attempt(&plugins, 0, Verdict::Nothing, &t, Access::Fetch, false, 0);
    assert_eq!(v, Verdict::Nothing);
    assert_eq!(pick, Some(0));
    assert_eq!(d.status("bpm", TrackId(1)), Some(ScanStatus::Downloading));
    let mut c = Catalog::new(MemStore::new());
    c.store.upsert_track(&t);
    let mut bus = Bus::new();
    let mut attrs: StrMap<String> = StrMap::new();
    attrs.insert("bpm".to_string(), "120".to_string());
    let end = d.settle(&plugins[0], TrackId(1), &Outcome::Done(TrackMeta { attrs }), &None, Access::Fetch, true, 5, &mut c, &mut bus);
    assert_eq!(end, Ending::Done);
    assert_eq!(c.store.get_track(TrackId(1)).unwrap().attrs.get("bpm"), Some(&"120".to_string()));
    assert_eq!(d.status("bpm", TrackId(1)), None);
    assert!(bus.drain().iter().any(|e| matches!(e, CoreEvent::TrackUpdated(_))));
}

#[test]
fn failed_scans_are_spaced() {
    let mut d = ScanDriver::new(ScanMode::Active);
    let t = track(1, "a");
    let plugins = vec![plugin("bpm", false)];
    d.next_attempt(&plugins, 0, Verdict::Nothing, &t, Access::Fetch, false, 0);
    let mut c = Catalog::new(MemStore::new());
    let mut bus = Bus::new();
    let end = d.settle(&plugins[0], TrackId(1), &Outcome::Retry, &None, Access::Fetch, true, 5, &mut c, &mut bus);
    assert_eq!(end, Ending::Failed);
    assert_eq!(d.status("bpm", TrackId(1)), Some(ScanStatus::Error));
    let (v, pick) = d.next_attempt(&plugins, 0, Verdict::Nothing, &t, Access::Fetch, false, 6);
    assert!(matches!(v, Verdict::NotBefore(_)));
    assert_eq!(pick, None);
}

#[test]
fn a_disabled_scan_starts_nothing() {
    let mut d = ScanDriver::new(ScanMode::Disabled);
    let t = track(1, "a");
    let plugins = vec![plugin("bpm", false), plugin("key", true)];
    let (v, pick) = d.next_attempt(&plugins, 0, Verdict::Nothing, &t, Access::Peek, true, 0);
    assert_eq!(v, Verdict::Waiting);
    assert_eq!(pick, None);
    assert_eq!(d.status("bpm", TrackId(1)), None);
    d.set_mode(ScanMode::CacheOnly, &Vec::new());
    let (_, pick) = d.next_attempt(&plugins, 0, Verdict::Nothing, &t, Access::Peek, true, 0);
    assert_eq!(pick, Some(0));
}

#[test]
fn playing_tracks_are_scanned_first() {
    let mut d = ScanDriver::new(ScanMode::CacheOnly);
    d.prioritize(TrackId(1), 10);
    d.prioritize(TrackId(2), 11);
    d.prioritize(TrackId(1), 12);
    assert_eq!(d.next_priority(), Some((TrackId(1), 12)));
    assert_eq!(d.next_priority(), Some((TrackId(2), 11)));
    assert_eq!(d.next_priority(), None);
    assert_eq!(Access::from_mode(ScanMode::Active), Access::Fetch);
    assert_eq!(Access::from_mode(ScanMode::CacheOnly), Access::Peek);
    assert_eq!(ScanMode::Active.cycle(), ScanMode::CacheOnly);
    assert_eq!(ScanMode::Disabled.cycle(), ScanMode::Disabled);
    assert_eq!(ScanMode::from_name("cache-only"), Some(ScanMode::CacheOnly));
    assert_eq!(ScanMode::from_name("x"), None);
}

#[test]
fn the_walk_starts_at_the_highlighted_row() {
    let mut d = ScanDriver::new(ScanMode::Active);
    d.follow_view(vec![TrackId(1), TrackId(2), TrackId(3)], 1);
    let mut wanted: IdMap<()> = IdMap::new();
    wanted.insert(1, ());
    wanted.insert(3, ());
    assert_eq!(d.walk_order(&wanted), vec![TrackId(3), TrackId(1)]);
    d.track_changed(TrackId(3));
    let walk = Walk::new(0);
    assert!(matches!(d.wait_walk(walk.next_at, walk.earliest, 1_000_000), WalkStep::Run(_)));
    assert_eq!(opening_order(&vec![false, true, false]), vec![1, 0, 2]);
}

#[test]
fn unplayable_streams_are_not_scanned() {
    let mut d = ScanDriver::new(ScanMode::Active);
    let t = track(1, "a");
    let plugins = vec![plugin("bpm", true)];
    d.next_attempt(&plugins, 0, Verdict::Nothing, &t, Access::Fetch, true, 0);
    let mut c = Catalog::new(MemStore::new());
    let mut bus = Bus::new();
    let stream = Some(StreamUse { source: spotify(), state: StreamState::Failed("gone".to_string()) });
    let end = d.settle(&plugins[0], TrackId(1), &Outcome::Skip, &stream, Access::Fetch, true, 5, &mut c, &mut bus);
    assert_ne!(end, Ending::Done);
}
