use medley::exchange::{build_entry, export_doc, export_message, join_path, synthesise_rendition, uri_stem};
use medley::env::{Env, PlayerFacts};
use medley::history::{history_record, load_history};
use medley::moment::Moment;
use medley::pct::{pct_decode, pct_encode};
use medley::playlist_m3u::{
    parse_m3u_at, write_entry, write_meta, write_quality, write_rendition, M3uDoc, M3uEntry, ParsedRendition,
    PlaylistMeta, SoftMeta,
};
use medley::strmap::StrMap;
use medley::{
    parse_m3u, write_m3u, Error, MemStore, Playlist, PlaylistId, Quality, Rendition, SourceId, Track, TrackId,
};

fn at(secs: i64) -> Moment {
    Moment::new(secs, 0).unwrap()
}

fn track(id: u128, title: &str, artist: &str, source: &str, uri: &str, ms: u32) -> Track {
    let r = Rendition::fresh_at(SourceId::new(source), uri.to_string(), ms, Quality::Unknown, at(1_600_000_000));
    Track::fresh_with(TrackId(id), title.to_string(), vec![artist.to_string()], r)
}

fn env() -> Env {
    Env {
        players: Vec::new(),
        cached: StrMap::new(),
        files: StrMap::new(),
        now: at(0),
        ms: 0,
        deal: Vec::new(),
    }
}

fn sample_entry() -> M3uEntry {
    M3uEntry {
        extinf: Some((201, "Boards of Canada - Roygbiv".to_string())),
        track_id: Some(0x1234_5678_9abc_4def_8012_3456_789a_bcde),
        played_at: None,
        meta: SoftMeta {
            isrc: Some("GBBPW9800001".to_string()),
            album: Some("Music; Has".to_string()),
            year: Some(1998),
            bpm: Some("96.5".to_string()),
            key: None,
            tags: vec!["idm".to_string(), "warm".to_string()],
        },
        renditions: vec![ParsedRendition {
            source: "spotify".to_string(),
            quality: Quality::Lossy { kbps: Some(320) },
            added_at: at(1_700_000_000),
            uri: "spotify:track:abc|def".to_string(),
        }],
        primary_uri: "http://host/a.mp3".to_string(),
    }
}

#[test]
fn percent_escapes_round_trip() {
    assert_eq!(pct_decode(&pct_encode("a|b;c%d=é,\n")), "a|b;c%d=é,\n");
    assert!(!pct_encode("a|b;c").contains('|'));
    assert_eq!(pct_decode("%C3%A9"), "é");
    assert_eq!(pct_encode("#a#"), "%23a#");
    assert_eq!(pct_decode("100%"), "100%");
    assert_eq!(pct_decode("%+A"), "%+A");
    assert_eq!(pct_decode("%€"), "%€");
    assert_eq!(pct_decode("%ff"), "\u{fffd}");
}

#[test]
fn a_whole_document_reads_back() {
    let doc = M3uDoc {
        playlist: PlaylistMeta {
            id: Some(0xaaaa_bbbb_cccc_4ddd_8eee_ffff_0000_1111),
            name: "Mix".to_string(),
            notes: "two\nlines".to_string(),
        },
        entries: vec![sample_entry()],
    };
    let text = write_m3u(&doc);
    assert!(text.starts_with("#EXTM3U\n"));
    assert!(text.contains("#PLAYLIST:Mix\n"));
    let crlf = parse_m3u(&text.replace('\n', "\r\n")).unwrap();
    assert_eq!(write_m3u(&crlf), text);
    let back = parse_m3u(&text).unwrap();
    assert_eq!(back.playlist.name, "Mix");
    assert_eq!(back.playlist.notes, "two\nlines");
    assert_eq!(back.playlist.id, Some(0xaaaa_bbbb_cccc_4ddd_8eee_ffff_0000_1111));
    assert_eq!(back.entries.len(), 1);
    let e = &back.entries[0];
    assert_eq!(e.extinf, Some((201, "Boards of Canada - Roygbiv".to_string())));
    assert_eq!(e.track_id, Some(0x1234_5678_9abc_4def_8012_3456_789a_bcde));
    assert_eq!(e.meta.album, Some("Music; Has".to_string()));
    assert_eq!(e.meta.year, Some(1998));
    assert_eq!(e.meta.tags, vec!["idm".to_string(), "warm".to_string()]);
    assert_eq!(e.renditions.len(), 1);
    assert_eq!(e.renditions[0].uri, "spotify:track:abc|def");
    assert_eq!(e.renditions[0].added_at, at(1_700_000_000));
    assert_eq!(e.primary_uri, "http://host/a.mp3");
    assert_eq!(write_m3u(&back), text);
}

#[test]
fn an_entry_is_written_line_by_line() {
    assert_eq!(
        write_entry(&sample_entry()),
        "\n#EXTINF:201,Boards of Canada - Roygbiv\n\
         #MEDLEY-TRACK-ID:12345678-9abc-4def-8012-3456789abcde\n\
         #MEDLEY-META:isrc=GBBPW9800001;album=Music%3B Has;year=1998;bpm=96.5;tags=idm,warm\n\
         #MEDLEY-RENDITION:spotify|lossy:320|2023-11-14T22:13:20Z|spotify:track:abc%7Cdef\n\
         http://host/a.mp3\n"
    );
}

#[test]
fn qualities_are_written() {
    assert_eq!(write_quality(&Quality::Unknown), "unknown");
    assert_eq!(write_quality(&Quality::Lossy { kbps: None }), "lossy");
    assert_eq!(write_quality(&Quality::Lossy { kbps: Some(128) }), "lossy:128");
    assert_eq!(write_quality(&Quality::Lossless { bits: None, hz: None }), "lossless");
    assert_eq!(write_quality(&Quality::Lossless { bits: Some(16), hz: Some(44_100) }), "lossless:16:44100");
    assert_eq!(write_quality(&Quality::Lossless { bits: None, hz: Some(48_000) }), "lossless::48000");
}

#[test]
fn metadata_that_says_nothing_is_not_written() {
    assert!(SoftMeta::empty().is_empty());
    assert_eq!(write_meta(&SoftMeta::empty()), "");
    let r = ParsedRendition {
        source: "ht|tp".to_string(),
        quality: Quality::Unknown,
        added_at: at(0),
        uri: "u".to_string(),
    };
    assert_eq!(write_rendition(&r), "ht%7Ctp|unknown|1970-01-01T00:00:00Z|u");
}

#[test]
fn a_foreign_playlist_is_read() {
    let doc = parse_m3u_at("#EXTM3U\r\n#EXTINF:12,One\r\n/music/one.mp3\r\n\r\n# note\r\n/music/two.mp3\r\n", at(7)).unwrap();
    assert_eq!(doc.entries.len(), 2);
    assert_eq!(doc.entries[0].extinf, Some((12, "One".to_string())));
    assert_eq!(doc.entries[0].primary_uri, "/music/one.mp3");
    assert_eq!(doc.entries[1].extinf, None);
    assert_eq!(doc.entries[1].primary_uri, "/music/two.mp3");
    assert_eq!(doc.playlist.name, "");
}

#[test]
fn a_text_without_the_header_is_no_playlist() {
    assert!(parse_m3u("hello\nworld\n").is_err());
    assert!(parse_m3u("").is_err());
}

#[test]
fn an_exported_track_and_a_missing_one() {
    let mut store = MemStore::new();
    store.upsert_track(&track(1, "Song", "Band", "http", "http://h/s.mp3", 61_400));
    let p = Playlist {
        id: PlaylistId(9),
        name: "P".to_string(),
        notes: String::new(),
        items: vec![TrackId(1), TrackId(2)],
    };
    let mut e = env();
    e.players.push(PlayerFacts {
        source: SourceId::new("http"),
        player: 0,
        accepts: vec![SourceId::new("http")],
        declines: StrMap::new(),
    });
    let tempos: StrMap<String> = StrMap::new();
    let (doc, gaps) = export_doc(&p, &store, &e, &tempos);
    assert_eq!(doc.playlist.name, "P");
    assert_eq!(doc.entries.len(), 1);
    assert_eq!(doc.entries[0].extinf, Some((61, "Band - Song".to_string())));
    assert_eq!(gaps, vec!["track 00000000-0000-0000-0000-000000000002 not in catalog".to_string()]);
    assert_eq!(
        export_message("/tmp/p.m3u8", 1, &gaps),
        "exported /tmp/p.m3u8 (1 tracks, 1 skipped): track 00000000-0000-0000-0000-000000000002 not in catalog"
    );
    assert_eq!(export_message("/tmp/p.m3u8", 2, &Vec::new()), "exported /tmp/p.m3u8 (2 tracks)");
}

#[test]
fn stems_and_paths() {
    assert_eq!(uri_stem("http://h/a/b c.mp3"), "b c");
    assert_eq!(uri_stem("/music/.hidden"), ".hidden");
    assert_eq!(join_path("/a", "b"), "/a/b");
    assert_eq!(join_path("/a/", "b"), "/a/b");
    assert_eq!(join_path("/a", "/b"), "/b");
    assert_eq!(join_path("", "b"), "b");
}

#[test]
fn a_line_of_a_foreign_playlist_becomes_a_rendition() {
    let r = synthesise_rendition("song.flac", "/music", &None);
    assert_eq!(r.source, "local");
    assert_eq!(r.uri, "/music/song.flac");
    let r = synthesise_rendition("spotify:track:1", "/music", &Some("spotify".to_string()));
    assert_eq!(r.source, "spotify");
    assert_eq!(r.uri, "spotify:track:1");
}

#[test]
fn plays_that_were_logged_are_read_back() {
    let t = track(7, "Song", "Band", "http", "http://h/s.mp3", 61_400);
    let mut log = history_record(&t, at(1_700_000_000), "http://h/s.mp3".to_string(), None, true);
    log.push_str(&history_record(&t, at(1_700_000_100), "http://h/s.mp3".to_string(), None, false));
    assert!(log.starts_with("#EXTM3U\n"));
    let plays = load_history(&log, at(1_800_000_000));
    assert_eq!(plays.len(), 2);
    assert!(plays.contains(&(TrackId(7), at(1_700_000_000))));
    assert!(plays.contains(&(TrackId(7), at(1_700_000_100))));
}

#[test]
fn an_unreadable_history_is_empty() {
    assert!(load_history("garbage", at(0)).is_empty());
}

#[test]
fn moments_are_written_and_read() {
    let m = at(1_700_000_000);
    assert_eq!(m.to_rfc3339(), "2023-11-14T22:13:20Z");
    assert_eq!(Moment::from_rfc3339("2023-11-14T22:13:20Z"), Some(m));
    assert_eq!(Moment::from_rfc3339("2023-11-14T23:13:20+01:00"), Some(m));
    assert_eq!(Moment::from_rfc3339("yesterday"), None);
    assert!(Moment::new(0, 2_000_000_000).is_none());
    assert!(at(2).later_than(&at(1)));
    assert!(!at(1).later_than(&at(1)));
    let now = Moment::now();
    assert!(now.later_than(&m));
}

#[test]
fn an_entry_of_a_track() {
    let t = track(3, "Song", "Band", "http", "http://h/s.mp3", 0);
    let e = build_entry(&t, "http://h/s.mp3".to_string(), Some("120".to_string()));
    assert_eq!(e.extinf, Some((-1, "Band - Song".to_string())));
    assert_eq!(e.track_id, Some(3));
    assert_eq!(e.meta.bpm, Some("120".to_string()));
    assert_eq!(e.renditions.len(), 1);
    assert_eq!(e.primary_uri, "http://h/s.mp3");
}

#[test]
fn errors_have_messages() {
    assert_eq!(Error::NotFound.message(), "not found");
    assert_eq!(Error::Store("x".to_string()).message(), "store error: x");
    assert_eq!(
        Error::Source { src: SourceId::new("http"), message: "x".to_string() }.message(),
        "source error [http]: x"
    );
    assert_eq!(Error::NoSource("u".to_string()).message(), "no source for uri: u");
    assert_eq!(Error::Gap("g".to_string()).message(), "resolve gap: g");
    assert_eq!(Error::Other("x".to_string()).message(), "x");
    assert_eq!(Error::Unsupported("x".to_string()).message(), "unsupported: x");
}
