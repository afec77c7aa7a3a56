use medley::audio::audio_quality;
use medley::embedding::{decode_genre_embedding, encode_genre_embedding, words_from_bytes};
use medley::matcher::norm_decomposed;
use medley::moment::Moment;
use medley::search::collections_wanted;
use medley::types::format_minutes;
use medley::waveform::{bucket_of, decode, encode, nearest_level, Live};
use medley::{
    audio_ext, is_local_source, local_path_from_uri, parse_artist_title, ItemKind, LinkReason, Matcher, PlaylistId,
    Quality, Rendition, Resolution, Resolver, SearchQuery, SourceId, Target, Track, TrackId,
};

fn at(secs: i64) -> Moment {
    Moment::new(secs, 0).unwrap()
}

fn rendition(source: &str, uri: &str, ms: u32, quality: Quality) -> Rendition {
    Rendition::fresh_at(SourceId::new(source), uri.to_string(), ms, quality, at(0))
}

fn track(title: &str, artists: &[&str], ms: u32) -> Track {
    let names: Vec<String> = artists.iter().map(|a| a.to_string()).collect();
    Track::fresh_with(TrackId(5), title.to_string(), names, rendition("http", "http://h/a.mp3", ms, Quality::Unknown))
}

#[test]
fn identifiers_are_random() {
    assert_ne!(TrackId::new(), TrackId::new());
    assert_ne!(PlaylistId::new(), PlaylistId::new());
    let id = TrackId::new().0;
    assert_eq!((id >> 76) & 0xf, 4);
    assert_eq!((id >> 62) & 3, 2);
}

#[test]
fn names_of_files_are_taken_apart() {
    assert_eq!(parse_artist_title("Band - Song"), (vec!["Band".to_string()], "Song".to_string()));
    assert_eq!(
        parse_artist_title("01. A & B, C - Song - Live"),
        (vec!["A".to_string(), "B".to_string(), "C".to_string()], "Song - Live".to_string())
    );
    assert_eq!(parse_artist_title("07 Song"), (vec![], "Song".to_string()));
    assert_eq!(parse_artist_title("A_-_B"), (vec!["A".to_string()], "B".to_string()));
    assert_eq!(parse_artist_title("  just   a name "), (vec![], "just a name".to_string()));
    assert_eq!(parse_artist_title("1999"), (vec![], "1999".to_string()));
}

#[test]
fn tracks_are_shown() {
    let t = track("Song", &["A", "B"], 61_000);
    assert_eq!(t.display_artist(), "A, B");
    assert_eq!(t.display_name(), "A, B - Song");
    assert_eq!(t.duration_str(&vec![false]), "1:01");
    let u = track("Song", &[], 0);
    assert_eq!(u.display_artist(), "Unknown Artist");
    assert_eq!(u.display_name(), "Song");
    assert_eq!(u.duration_str(&vec![false]), "?:??");
    assert_eq!(format_minutes(0), "?:??");
    assert_eq!(format_minutes(605_999), "10:05");
}

#[test]
fn sources_have_labels() {
    assert_eq!(SourceId::new("spotify").short(), "sp");
    assert_eq!(SourceId::new("soundcloud").short(), "sc");
    assert_eq!(SourceId::new("local").short(), "lo");
    assert_eq!(SourceId::new("http").short(), "ht");
    assert_eq!(SourceId::new("ÉCRAN").short(), "ÉC");
    assert_eq!(SourceId::new("Tidal").short(), "Ti");
    assert_eq!(SourceId::new("x").short(), "x");
    let mut t = track("Song", &["A"], 1);
    t.renditions.push(rendition("spotify", "s", 1, Quality::Unknown));
    t.renditions.push(rendition("http", "h", 1, Quality::Unknown));
    assert_eq!(t.source_badges(), "[http+spotify]");
    assert_eq!(t.source_badges_short(), "ht+sp");
}

#[test]
fn extensions_tell_audio() {
    assert!(audio_ext("a/b.MP3"));
    assert!(audio_ext("x.flac"));
    assert!(!audio_ext("x.txt"));
    assert!(!audio_ext("flac"));
    assert_eq!(audio_quality("x.flac"), Quality::Lossless { bits: None, hz: None });
    assert_eq!(audio_quality("x.mp3"), Quality::Lossy { kbps: None });
}

#[test]
fn local_addresses() {
    assert!(is_local_source(&SourceId::new("local")));
    assert!(!is_local_source(&SourceId::new("http")));
    assert_eq!(local_path_from_uri("file:///a/b.mp3"), "/a/b.mp3");
    assert_eq!(local_path_from_uri("/a/b.mp3"), "/a/b.mp3");
}

#[test]
fn texts_are_normalised_for_matching() {
    assert_eq!(Matcher::norm("Beyoncé (Live) feat. Jay-Z"), Matcher::norm("beyonce"));
    assert_eq!(Matcher::norm("The  Beatles!"), "the beatles");
    assert_eq!(Matcher::norm("  -A--B ( x ) & C- "), "a b c");
    assert_eq!(Matcher::norm("- (x) -"), "");
    for s in ["Mixed Case (Live)", "a  b", "ÉCLAIR; ß -- Ⅷ", "x feat. Y"] {
        let n = Matcher::norm(s);
        assert!(!n.starts_with(' ') && !n.ends_with(' ') && !n.contains("  "));
        assert!(n.chars().all(|c| c.is_alphanumeric() || c == ' '));
    }
    assert_eq!(Matcher::norm("MIXED CASE FT. X"), Matcher::norm("Mixed Case ft. x"));
    assert_eq!(norm_decomposed("a (b [c) d] e!f ft. g"), "a e f");
    assert_eq!(norm_decomposed("e\u{301}te\u{301}"), "ete");
}

#[test]
fn tracks_match_by_code_or_by_name_and_length() {
    let mut a = track("Song", &["Band"], 200_000);
    let mut b = track("song!", &["BAND"], 201_000);
    assert_eq!(Matcher::matches(&a, &b), Some(LinkReason::Fuzzy));
    b.duration_ms = 260_000;
    assert_eq!(Matcher::matches(&a, &b), None);
    a.isrc = Some("X".to_string());
    b.isrc = Some("X".to_string());
    assert_eq!(Matcher::matches(&a, &b), Some(LinkReason::Isrc));
    b.isrc = Some("Y".to_string());
    b.duration_ms = 200_000;
    assert_eq!(Matcher::matches(&a, &b), None);
}

#[test]
fn playback_takes_the_best_rendition() {
    let mut t = track("Song", &["A"], 10);
    t.renditions = vec![
        rendition("http", "h", 10, Quality::Lossy { kbps: Some(128) }),
        rendition("soundcloud", "s", 10, Quality::Lossless { bits: None, hz: None }),
    ];
    match Resolver::resolve_track(&t, &Target::Playback, &vec![false, false]) {
        Resolution::Ready(r) => assert_eq!(r.uri, "s"),
        Resolution::Gap { reason } => panic!("{reason}"),
    }
    match Resolver::resolve_track(&t, &Target::ExportTo(SourceId::new("spotify")), &vec![false, false]) {
        Resolution::Gap { reason } => assert_eq!(reason, "no rendition on source spotify"),
        Resolution::Ready(_) => panic!("nothing is on spotify"),
    }
    t.renditions = Vec::new();
    match Resolver::resolve_track(&t, &Target::Playback, &Vec::new()) {
        Resolution::Gap { reason } => assert_eq!(reason, "nothing playable for \"Song\""),
        Resolution::Ready(_) => panic!("there is nothing to play"),
    }
    match Resolver::resolve_track(&t, &Target::ExportM3u, &Vec::new()) {
        Resolution::Gap { reason } => assert_eq!(reason, "nothing exportable for \"Song\""),
        Resolution::Ready(_) => panic!("there is nothing to export"),
    }
}

#[test]
fn failed_sources_are_left_out() {
    let mut t = track("Song", &["A"], 10);
    t.renditions = vec![rendition("http", "h", 10, Quality::Unknown), rendition("soundcloud", "s", 10, Quality::Unknown)];
    match Resolver::resolve_playback_excluding(&t, &vec![SourceId::new("http")], &vec![false, false]) {
        Resolution::Ready(r) => assert_eq!(r.uri, "s"),
        Resolution::Gap { reason } => panic!("{reason}"),
    }
}

#[test]
fn waveforms_are_stored_as_digits() {
    assert_eq!(encode(&[0, 255, 16]), "00ff10");
    assert_eq!(decode("00ff10"), vec![0, 255, 16]);
    assert_eq!(decode("00zz10"), vec![0, 16]);
    assert_eq!(decode(""), Vec::<u8>::new());
    assert_eq!(bucket_of(0, 100), 0);
    assert_eq!(bucket_of(50, 100), 200);
    assert_eq!(bucket_of(100, 100), 399);
    assert_eq!(nearest_level(0, 4), 0);
    assert_eq!(nearest_level(399, 4), 3);
}

#[test]
fn live_waveforms_come_and_go() {
    let mut live = Live::new();
    assert_eq!(live.live(TrackId(1)), None);
    live.publish_live(TrackId(1), &[1, 2]);
    live.publish_live(TrackId(2), &[3]);
    assert_eq!(live.live(TrackId(1)), Some(vec![1, 2]));
    live.clear_live(TrackId(1));
    assert_eq!(live.live(TrackId(1)), None);
    assert_eq!(live.live(TrackId(2)), Some(vec![3]));
}

#[test]
fn embeddings_read_back() {
    let v = vec![0x3f80_0000u32, 0xc000_0000, 0, 7];
    let s = encode_genre_embedding(&v);
    assert_eq!(s, "AACAPwAAAMAAAAAABwAAAA==");
    assert_eq!(decode_genre_embedding(&s), Some(v));
    assert_eq!(decode_genre_embedding("!!"), None);
    assert_eq!(words_from_bytes(&[1, 0, 0, 0]), Some(vec![1]));
    assert_eq!(words_from_bytes(&[1, 0, 0]), None);
}

#[test]
fn searches_ask_for_collections() {
    let q = SearchQuery::text("abc");
    assert!(collections_wanted(&q).is_empty());
    assert_eq!(collections_wanted(&SearchQuery::all_kinds("abc")), vec![ItemKind::Album, ItemKind::Playlist]);
}
