use medley::config::cache_dir;
use medley::index_ingest::{extra_indexes, ingested_message, Incoming};
use medley::media_cache::{
    index_path, is_extra_index, move_plan, sanitize, sanitize_display, sniff_ext, stream_file_name, unique_filename,
    MergeCount, MoveFacts, MovePlan,
};
use medley::plugin_commands::PluginCommands;
use medley::startup::{config_dir, config_problems, data_dir, parse_problem, root_problem, state_path};
use medley::state::{changes, default_mode, initial_scan_mode, read_last_played, read_saved, save_last_played};
use medley::state_doc::{is_quotable, is_rewritable};
use medley::state_text::{read_hotkeys, save_state};
use medley::strmap::StrMap;
use medley::update::{
    asked_update_result, installed_message, is_managed, link_to_replace, parse_version, plan_update, platform_suffix,
    quiet_update_event, Outcome, UpdatePlan,
};
use medley::{
    expand_home, tilde, BrowseNode, BuiltinAction, Config, CoreEvent, HotkeyTarget, LastPlayed, MediaCache, MemStore,
    PlaylistId, PluginCommand, PluginHealth, ScanMode, SetupLog, SetupPrompt, SourceId, TrackId,
};

const UUID: u128 = 0x1234_5678_9abc_4def_8012_3456_789a_bcde;

fn keys() -> Vec<(char, HotkeyTarget)> {
    vec![
        ('a', HotkeyTarget::Local(PlaylistId(UUID))),
        ('"', HotkeyTarget::Remote(SourceId::new("spotify"), BrowseNode::Path("it's \"x\"".to_string()))),
        ('z', HotkeyTarget::Builtin(BuiltinAction::Next)),
    ]
}

fn empty_map() -> StrMap<()> {
    StrMap::new()
}

#[test]
fn a_saved_state_is_read_back() {
    let base = Config::first_run();
    let mut now = Config::first_run();
    now.vis.fps = 12;
    now.status_line = false;
    now.auto_update = false;
    now.media_cache_dir = "/big disk/cache".to_string();
    now.set_source_enabled("spotify", false);
    let was = read_saved("waveform_enabled = false\nliked_playlist = \"Best \\\"of\\\"\"\n");
    let saved = changes(&base, &now, &was, &"/old".to_string(), Some(ScanMode::Active));
    assert_eq!(saved.waveform_enabled, Some(false));
    assert_eq!(saved.liked_playlist, Some("Best \"of\"".to_string()));
    assert_eq!(saved.vis_fps, Some(12));
    assert_eq!(saved.show_hints, None);
    assert_eq!(saved.http, None);
    assert_eq!(saved.media_cache_move_from, Some("/old".to_string()));
    let last = Some(LastPlayed { track: TrackId(UUID), playlist: Some(HotkeyTarget::Local(PlaylistId(7))) });
    let text = save_state("0.5", &saved, &keys(), &Some("[layout]\npanes = 2\n".to_string()), &last);
    assert!(text.starts_with("volume = 0.5\nvis_fps = 12\nstatus_line = false\nauto_update = false\nwaveform_enabled = false\n"));
    assert!(text.contains("media_cache_dir = \"/big disk/cache\"\n"));
    assert!(text.contains("scan_mode = \"active\"\n"));
    assert!(text.contains("\n[sources]\nspotify = false\n"));
    let back = read_saved(&text);
    assert_eq!(back.vis_fps, Some(12));
    assert_eq!(back.status_line, Some(false));
    assert_eq!(back.show_hints, None);
    assert_eq!(back.waveform_enabled, Some(false));
    assert_eq!(back.liked_playlist, Some("Best \"of\"".to_string()));
    assert_eq!(back.media_cache_dir, Some("/big disk/cache".to_string()));
    assert_eq!(back.media_cache_move_from, Some("/old".to_string()));
    assert_eq!(back.scan_mode, Some(ScanMode::Active));
    assert_eq!(back.spotify, Some(false));
    assert_eq!(back.soulseek, None);
    let mut restored = Config::first_run();
    restored.restore(&back);
    assert_eq!(restored.vis.fps, 12);
    assert_eq!(restored.source_enabled("spotify"), Some(false));
    assert_eq!(restored.source_enabled("http"), Some(true));
    assert_eq!(restored.media_cache_dir, "/big disk/cache");
    assert_eq!(initial_scan_mode(&back, restored.scan), ScanMode::Active);
    let mut found: Vec<String> = read_hotkeys(&text).iter().map(|(k, t)| format!("{k}={}", t.to_text())).collect();
    found.sort();
    let mut wanted: Vec<String> = keys().iter().map(|(k, t)| format!("{k}={}", t.to_text())).collect();
    wanted.sort();
    assert_eq!(found, wanted);
    let l = read_last_played(&text).unwrap();
    assert_eq!(l.track, TrackId(UUID));
    assert_eq!(l.playlist.unwrap().to_text(), "local:00000000-0000-0000-0000-000000000007");
}

#[test]
fn every_entry_of_a_state_is_read_back() {
    for fps in [0, 7, 12, 24, 1979, 19_790_527, u32::MAX] {
        let mut saved = read_saved("");
        saved.vis_fps = Some(fps);
        saved.show_hints = Some(true);
        saved.liked_playlist = Some(String::new());
        saved.media_cache_dir = Some("/caché # = [x]".to_string());
        saved.scan_mode = Some(ScanMode::Disabled);
        saved.http = Some(false);
        saved.soulseek = Some(true);
        let keys = vec![
            ('$', HotkeyTarget::Builtin(BuiltinAction::Next)),
            ('=', HotkeyTarget::Local(PlaylistId(UUID))),
            (' ', HotkeyTarget::Remote(SourceId::new("http"), BrowseNode::Path("a:b # c".to_string()))),
        ];
        let last = Some(LastPlayed { track: TrackId(3), playlist: Some(HotkeyTarget::Local(PlaylistId(UUID))) });
        for volume in ["0.5", "1e-7", "inf"] {
            for layout in [None, Some("[layout]\nfocus = 1\n\n[[layout.panes]]\nsize = 2.5\n".to_string())] {
                let text = save_state(volume, &saved, &keys, &layout, &last);
                assert_eq!(read_last_played(&text).unwrap().track, TrackId(3));
                assert_eq!(read_saved(&text).vis_fps, Some(fps));
                assert_eq!(read_hotkeys(&text).len(), keys.len());
            }
            let text = save_state(volume, &saved, &keys, &None, &last);
            let back = read_saved(&text);
            assert_eq!(back.vis_fps, Some(fps));
            assert_eq!(back.status_line, None);
            assert_eq!(back.show_hints, Some(true));
            assert_eq!(back.liked_playlist, Some(String::new()));
            assert_eq!(back.media_cache_dir, saved.media_cache_dir);
            assert_eq!(back.media_cache_move_from, None);
            assert_eq!(back.scan_mode, Some(ScanMode::Disabled));
            assert_eq!((back.http, back.spotify, back.soundcloud, back.soulseek), (Some(false), None, None, Some(true)));
            let found = read_hotkeys(&text);
            assert_eq!(found.len(), keys.len());
            for (key, target) in &keys {
                assert!(found.iter().any(|(k, t)| k == key && t.same(target)));
            }
            let l = read_last_played(&text).unwrap();
            assert_eq!(l.track, TrackId(3));
            assert!(l.playlist.unwrap().same(&HotkeyTarget::Local(PlaylistId(UUID))));
        }
    }
}

#[test]
fn settings_that_were_not_changed_are_not_kept() {
    let base = Config::first_run();
    let saved = changes(&base, &base, &read_saved(""), &String::new(), Some(ScanMode::CacheOnly));
    let text = save_state("1.0", &saved, &Vec::new(), &None, &None);
    assert_eq!(text, "volume = 1.0\n");
    assert_eq!(default_mode(base.scan), ScanMode::CacheOnly);
}

#[test]
fn an_unreadable_state_is_empty() {
    let s = read_saved("= = =");
    assert!(s.vis_fps.is_none() && s.scan_mode.is_none() && s.http.is_none());
    assert!(read_hotkeys("= = =").is_empty());
    assert!(read_last_played("= = =").is_none());
    let s = read_saved("vis_fps = -1\nstatus_line = 3\nscan_mode = \"loud\"\n");
    assert!(s.vis_fps.is_none() && s.status_line.is_none() && s.scan_mode.is_none());
    assert!(read_hotkeys("[hotkeys]\nab = \"builtin:next\"\nc = \"nonsense\"\nd = 4\n").is_empty());
    assert!(read_last_played("[last_played]\ntrack = \"x\"\n").is_none());
}

#[test]
fn what_played_last_replaces_what_played_before() {
    let text = "volume = 0.25\nvis_fps = 24\nmedia_cache_dir = \"/c\"\n\n[last_played]\ntrack = \"old\"\nplaylist = \"old\"\n";
    let l = LastPlayed { track: TrackId(UUID), playlist: None };
    let new = save_last_played(text, &l).unwrap();
    let back = read_last_played(&new).unwrap();
    assert_eq!(back.track, TrackId(UUID));
    assert!(back.playlist.is_none());
    assert_eq!(read_saved(&new).vis_fps, Some(24));
    assert_eq!(read_saved(&new).media_cache_dir, Some("/c".to_string()));
    assert!(save_last_played("broken", &l).is_some());
    let long: String = std::iter::repeat('"').take(300).collect();
    assert!(!is_quotable(&long));
    // Not a document: it is replaced as a whole.
    assert!(is_rewritable(&long));
    assert!(save_last_played(&long, &l).is_some());
    let marks = |c: char, n: usize| -> String { std::iter::repeat(c).take(n).collect() };
    assert!(!is_rewritable(&format!("a = '{}'\n", marks('"', 256))));
    assert!(is_rewritable(&format!("a = '{}'\n", marks('"', 255))));
    assert!(!is_rewritable(&format!("[t]\na = [\"{}\"]\n", marks('\'', 256))));
    assert!(is_rewritable(&format!("[t]\na = [\"{}\"]\n", marks('\'', 255))));
    let escapes: String = std::iter::repeat("\\u0022").take(256).collect();
    assert!(save_last_played(&format!("a = \"{escapes}\"\n"), &l).is_none());
    let slashes: String = std::iter::repeat("\\\\").take(300).collect();
    for filler in [marks(' ', 300), marks('0', 300), marks('u', 300), marks('"', 300), marks('\'', 300), slashes] {
        let kept = save_last_played(&format!("# {filler}\nvis_fps = 24\n"), &l).unwrap();
        assert_eq!(read_saved(&kept).vis_fps, Some(24));
        assert_eq!(read_last_played(&kept).unwrap().track, TrackId(UUID));
    }
    let kept = save_last_played(&format!("vis_fps = 24\na = \"{}\"\n", "\\\\".repeat(300)), &l).unwrap();
    assert_eq!(read_saved(&kept).vis_fps, Some(24));
    assert!(is_quotable("it's \"fine\""));
}

#[test]
fn roots_that_are_no_addresses_are_problems() {
    let roots = vec!["http://localhost:8000/".to_string(), "not a url".to_string()];
    assert_eq!(
        config_problems(&roots),
        vec!["http root \"not a url\" is not a valid URL: relative URL without a base".to_string()]
    );
    assert_eq!(root_problem("x", "y"), "http root \"x\" is not a valid URL: y");
    assert_eq!(parse_problem("/c.toml", "line 1"), "/c.toml failed to parse: line 1; using defaults");
}

#[test]
fn directories() {
    assert_eq!(config_dir(&None, "/home/u"), "/home/u/.config/medley");
    assert_eq!(config_dir(&Some("/x".to_string()), "/home/u"), "/x/medley");
    assert_eq!(data_dir(&None, "/home/u"), "/home/u/.local/share/medley");
    assert_eq!(state_path("/d"), "/d/state.toml");
    assert_eq!(expand_home("~/m", "/home/u"), "/home/u/m");
    assert_eq!(expand_home("~", "/home/u"), "/home/u");
    assert_eq!(expand_home("~x", "/home/u"), "~x");
    assert_eq!(tilde("/home/u/m", "/home/u"), "~/m");
    assert_eq!(tilde("/home/user/m", "/home/u"), "/home/user/m");
    assert_eq!(cache_dir("  ", "/home/u"), Err("cache directory is empty".to_string()));
    assert_eq!(cache_dir(" ~/c ", "/home/u"), Ok("/home/u/c".to_string()));
}

#[test]
fn a_cache_that_could_not_be_moved_stays() {
    let mut c = Config::first_run();
    c.place_cache("/data");
    assert_eq!(c.media_cache_dir, "/data/media-cache");
    let saved = read_saved("media_cache_move_from = \"/old\"\n");
    assert_eq!(c.pending_move(&saved), Some("/old".to_string()));
    assert_eq!(
        c.keep_cache("/old".to_string(), "disk full"),
        "media cache not moved to /data/media-cache: disk full; still using /old"
    );
    assert_eq!(c.media_cache_dir, "/old");
    assert_eq!(c.pending_move(&saved), None);
}

#[test]
fn files_of_the_cache_have_names() {
    assert_eq!(sanitize("a/b:c"), "a_b_c");
    assert!(!sanitize_display("a/b").contains('/'));
    assert_eq!(sniff_ext(b"OggS...."), Some("ogg".to_string()));
    assert_eq!(sniff_ext(b"ID3"), Some("mp3".to_string()));
    assert_eq!(sniff_ext(&[0xff, 0xfb]), Some("mp3".to_string()));
    assert_eq!(sniff_ext(b"....ftyp"), Some("m4a".to_string()));
    assert_eq!(sniff_ext(b"????"), None);
    let mut taken = empty_map();
    assert_eq!(unique_filename(&taken, "song", &Some("mp3".to_string())), "song.mp3");
    taken.insert("song.mp3".to_string(), ());
    assert_eq!(unique_filename(&taken, "song", &Some("mp3".to_string())), "song (2).mp3");
    assert_eq!(index_path("/c/media-cache"), "/c/media-cache.redb");
    for dir in ["/c/media-cache", "/c/media.d/", "/c/media-cache/.", "/c/./media/./", "a/././/", ".", "./", "./.", "/", "/.", "..", "a/..", "a/../.", ".cache", ""] {
        assert_eq!(index_path(dir), std::path::Path::new(dir).with_extension("redb").display().to_string(), "{dir}");
    }
    assert!(is_extra_index("media-cache-old.redb", "media-cache", "media-cache.redb"));
    assert!(!is_extra_index("media-cache.redb", "media-cache", "media-cache.redb"));
    assert!(!is_extra_index("media-cachex.redb", "media-cache", "media-cache.redb"));
    assert_eq!(stream_file_name(7, 3), "7-3.part");
}

fn cache() -> MediaCache {
    MediaCache { dir: "/c".to_string(), index: StrMap::new() }
}

#[test]
fn cached_renditions_are_found_and_pruned() {
    let mut c = cache();
    let http = SourceId::new("http");
    let name = c.dest(&http, "http://h/a.mp3", &Some("mp3".to_string()), &empty_map(), &MemStore::new());
    assert!(name.starts_with("/c/http/"));
    let mut files = empty_map();
    assert_eq!(c.cached_path(&http, "http://h/a.mp3", &files), None);
    files.insert(name.clone(), ());
    assert_eq!(c.cached_path(&http, "http://h/a.mp3", &files), Some(name));
    assert_eq!(c.prune_orphans(&files), 0);
    assert_eq!(c.prune_orphans(&empty_map()), 1);
    assert_eq!(c.index.len(), 0);
}

fn entries(pairs: &[(&str, &str)]) -> StrMap<String> {
    let mut m = StrMap::new();
    for (k, v) in pairs {
        m.insert(k.to_string(), v.to_string());
    }
    m
}

#[test]
fn other_indexes_are_taken_over() {
    let mut c = cache();
    c.index.insert("http\0a".to_string(), "mine".to_string());
    let extras = vec![
        Incoming::Entries(entries(&[("http\0a", "theirs"), ("http\0b", "b.mp3")])),
        Incoming::Unusable,
        Incoming::Entries(entries(&[("http\0c", "c.mp3")])),
    ];
    let mut files = empty_map();
    files.insert("/c/http/c.mp3".to_string(), ());
    let r = c.ingest_extra_indexes(&extras, &files);
    assert!(!r.restored);
    assert_eq!(r.delete, vec![0, 2]);
    assert_eq!(r.counts[0], MergeCount { inserted: 1, fileless: 1, skipped: 1 });
    assert_eq!(r.counts[1], MergeCount { inserted: 1, fileless: 0, skipped: 0 });
    assert_eq!(c.index.get("http\0a"), Some(&"mine".to_string()));
    assert_eq!(c.index.len(), 3);
    assert_eq!(
        ingested_message("/x.redb", r.counts[0]),
        "ingested /x.redb: inserted 1 (1 without a file, will be dropped by the next prune), skipped 1"
    );
    let names = vec!["c.redb".to_string(), "c-2.redb".to_string(), "c.txt".to_string()];
    assert_eq!(extra_indexes(&names, "c", "c.redb"), vec!["c-2.redb".to_string()]);
}

#[test]
fn a_failed_takeover_changes_nothing() {
    let mut c = cache();
    c.index.insert("http\0a".to_string(), "mine".to_string());
    let extras = vec![Incoming::Entries(entries(&[("http\0b", "b.mp3")])), Incoming::Broken];
    let r = c.ingest_extra_indexes(&extras, &empty_map());
    assert!(r.restored);
    assert!(r.delete.is_empty());
    assert_eq!(c.index.len(), 1);
}

#[test]
fn caches_are_moved() {
    let f = MoveFacts { to_index: false, to_entries: false, from_dir: true, from_index: true, same_device: true };
    assert!(matches!(move_plan("/new", &f), MovePlan::Rename { index: true }));
    assert!(matches!(move_plan("/new", &MoveFacts { same_device: false, ..f }), MovePlan::Copy { index: true }));
}

#[test]
fn a_cache_is_not_moved_onto_another() {
    let f = MoveFacts { to_index: true, to_entries: true, from_dir: true, from_index: true, same_device: true };
    assert!(matches!(move_plan("/new", &f), MovePlan::Refuse(_)));
    let g = MoveFacts { to_index: false, to_entries: false, from_dir: false, from_index: false, same_device: true };
    assert!(matches!(move_plan("/new", &g), MovePlan::Nothing));
}

#[test]
fn releases_are_compared() {
    assert_eq!(parse_version("v1.20.3"), Some((1, 20, 3)));
    assert_eq!(parse_version("1.2"), None);
    let body = br#"{"tag_name":"v2.0.0","assets":[{"name":"medley-linux-x86_64","browser_download_url":"http://d"}]}"#;
    match plan_update(body, "linux-x86_64", "1.9.9") {
        Ok(UpdatePlan::Download { tag, url }) => {
            assert_eq!(tag, "v2.0.0");
            assert_eq!(url, "http://d");
        },
        other => panic!("{other:?}"),
    }
    assert!(matches!(plan_update(body, "linux-arm64", "1.9.9"), Ok(UpdatePlan::NotReady)));
    assert!(matches!(plan_update(body, "linux-x86_64", "2.0.0"), Ok(UpdatePlan::Current)));
    assert_eq!(plan_update(b"{}", "x", "1.0.0").unwrap_err(), "release info has no tag_name");
    assert_eq!(
        plan_update(br#"{"tag_name":"new"}"#, "x", "1.0.0").unwrap_err(),
        "unrecognized release tag new"
    );
    let odd = br#"{"tag_name":"2.0.0","assets":[{"name":7,"browser_download_url":"http://a"},{"name":"medley-x"},{"browser_download_url":"http://c","name":"medley-y"}]}"#;
    assert!(matches!(plan_update(odd, "x", "1.0.0"), Ok(UpdatePlan::NotReady)));
    assert!(matches!(plan_update(odd, "y", "1.0.0"), Ok(UpdatePlan::Download { url, .. }) if url == "http://c"));
    assert!(matches!(plan_update(br#"{"tag_name":"2.0.0","assets":3}"#, "y", "1.0.0"), Ok(UpdatePlan::NotReady)));
    assert!(plan_update(b"nonsense", "x", "1.0.0").unwrap_err().starts_with("unreadable release info: "));
    assert_eq!(platform_suffix("linux", "aarch64"), Ok("linux-arm64".to_string()));
    assert_eq!(platform_suffix("plan9", "mips"), Err("no release binary for plan9-mips".to_string()));
    assert_eq!(installed_message("v2"), "v2 is ready; restart to use it");
}

#[test]
fn updates_are_told_of() {
    assert!(quiet_update_event(Ok(Outcome::Current)).is_none());
    assert!(quiet_update_event(Ok(Outcome::NotReady)).is_none());
    assert!(matches!(
        quiet_update_event(Ok(Outcome::Installed("v2".to_string()))),
        Some(CoreEvent::UpdateResult(Ok(_)))
    ));
    assert!(matches!(quiet_update_event(Err("x".to_string())), Some(CoreEvent::BackgroundFailure { .. })));
    assert_eq!(asked_update_result(Ok(Outcome::Current), "1.2.3"), Ok("already up to date (v1.2.3)".to_string()));
    assert_eq!(
        asked_update_result(Ok(Outcome::NotReady), "1.2.3"),
        Err("the new release has no binary for this platform yet".to_string())
    );
    assert!(is_managed("/usr/bin/medley"));
    assert!(!is_managed("/home/u/.local/bin/medley"));
    assert_eq!(link_to_replace(None, false, ""), Ok(None));
    assert!(link_to_replace(Some("/usr/bin/medley".to_string()), false, "/usr/bin/medley").is_err());
}

#[test]
fn plugins_bring_commands() {
    let mut c = PluginCommands::new();
    c.register(SourceId::new("a"), PluginCommand { word: "login".to_string(), help: "log in".to_string() });
    c.register(SourceId::new("b"), PluginCommand { word: "login".to_string(), help: "again".to_string() });
    assert_eq!(c.plugin_for_command("login").unwrap().as_str(), "b");
    assert!(c.plugin_for_command("other").is_none());
    assert_eq!(c.plugin_command_help()[0], ("login".to_string(), "log in".to_string()));
}

#[test]
fn setups_ask_and_report() {
    let p = SetupPrompt::new("Name").default("slskd");
    assert_eq!(p.answer(String::new()), "slskd");
    assert_eq!(p.answer("me".to_string()), "me");
    assert!(SetupPrompt::new("Password").secret().secret);
    let mut log = SetupLog::new(SourceId::new("spotify"), 3);
    assert!(!log.cancelled());
    log.cancel();
    assert!(log.cancelled());
    assert!(PluginHealth::Healthy.is_ok());
    assert_eq!(PluginHealth::Warn("w".to_string()).message(), Some("w".to_string()));
    assert_eq!(PluginHealth::Healthy.message(), None);
    assert!(!PluginHealth::Fail("a".to_string()).same(&PluginHealth::Warn("a".to_string())));
}
