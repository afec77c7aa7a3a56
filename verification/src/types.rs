//! The data model: tracks, their renditions on sources, playlists and search queries.

use vstd::prelude::*;
use crate::ids::{new_uuid, random_uuid};
use crate::moment::Moment;
use crate::strmap::StrMap;
use crate::text::{
    append_decimal, append_str, chars_of, chars_views, decimal, join, join_strings, joined, part, same_text,
    str_views, string_of,
};

verus! {

#[derive(Clone, Copy, PartialEq, Eq, Structural, Hash, Debug)]
pub struct TrackId(pub u128);

#[derive(Clone, Copy, PartialEq, Eq, Structural, Hash, Debug)]
pub struct PlaylistId(pub u128);

impl TrackId {
    /// A random identifier.
    pub fn new() -> (r: TrackId)
        ensures
            random_uuid(r.0),
    {
        TrackId(new_uuid())
    }
}

impl PlaylistId {
    /// A random identifier.
    pub fn new() -> (r: PlaylistId)
        ensures
            random_uuid(r.0),
    {
        PlaylistId(new_uuid())
    }
}

/// A short label that identifies a source.
#[derive(PartialEq, Eq, Hash, Debug, PartialOrd, Ord)]
pub struct SourceId {
    name: String,
}

impl View for SourceId {
    type V = Seq<char>;

    closed spec fn view(&self) -> Seq<char> {
        self.name@
    }
}

impl Clone for SourceId {
    fn clone(&self) -> (r: SourceId)
        ensures
            r == *self,
            r@ == self@,
    {
        SourceId { name: self.name.clone() }
    }
}

/// The two-letter label of a source name; a name without one of its own gives its first two
/// characters.
pub open spec fn short_label(name: Seq<char>) -> Seq<char> {
    if name == "spotify"@ {
        "sp"@
    } else if name == "soundcloud"@ {
        "sc"@
    } else if name == "local"@ {
        "lo"@
    } else if name == "http"@ {
        "ht"@
    } else if name == "external"@ {
        "ex"@
    } else {
        name.take(if name.len() < 2 {
            name.len() as int
        } else {
            2
        })
    }
}

impl SourceId {
    pub fn new(s: &str) -> (r: SourceId)
        ensures
            r@ == s@,
    {
        SourceId { name: s.to_owned() }
    }

    pub fn as_str(&self) -> (r: &str)
        ensures
            r@ == self@,
    {
        self.name.as_str()
    }

    pub fn same(&self, other: &SourceId) -> (r: bool)
        ensures
            r == (self@ == other@),
    {
        self.name == other.name
    }

    /// Whether the source has this name.
    pub fn named(&self, name: &str) -> (r: bool)
        ensures
            r == (self@ == name@),
    {
        same_text(self.as_str(), name)
    }

    /// A two-letter label for a narrow column.
    pub fn short(&self) -> (r: String)
        ensures
            r@ == short_label(self@),
    {
        if self.named("spotify") {
            "sp".to_owned()
        } else if self.named("soundcloud") {
            "sc".to_owned()
        } else if self.named("local") {
            "lo".to_owned()
        } else if self.named("http") {
            "ht".to_owned()
        } else if self.named("external") {
            "ex".to_owned()
        } else {
            let c = chars_of(self.as_str());
            let n: usize = if c.len() < 2 {
                c.len()
            } else {
                2
            };
            let head = part(&c, 0, n);
            proof {
                assert(head@ =~= self@.take(n as int));
            }
            string_of(&head)
        }
    }
}

#[derive(Clone, Copy, PartialEq, Eq, Structural, Debug)]
pub enum Quality {
    Lossless { bits: Option<u8>, hz: Option<u32> },
    Lossy { kbps: Option<u32> },
    Unknown,
}

/// How a rendition was matched to its track.
#[derive(Clone, Copy, PartialEq, Eq, Structural, Debug)]
pub enum LinkReason {
    Isrc,
    Fuzzy,
    Manual,
}

/// One way to play a track: an address on a source.
#[derive(Debug)]
pub struct Rendition {
    pub source: SourceId,
    /// Read by the source only.
    pub uri: String,
    /// 0 when unknown.
    pub duration_ms: u32,
    pub quality: Quality,
    pub link: LinkReason,
    pub added_at: Moment,
}

/// What a rendition holds.
pub struct RenditionView {
    pub source: Seq<char>,
    pub uri: Seq<char>,
    pub duration_ms: u32,
    pub quality: Quality,
    pub link: LinkReason,
    pub added_at: Moment,
}

impl View for Rendition {
    type V = RenditionView;

    open spec fn view(&self) -> RenditionView {
        RenditionView {
            source: self.source@,
            uri: self.uri@,
            duration_ms: self.duration_ms,
            quality: self.quality,
            link: self.link,
            added_at: self.added_at,
        }
    }
}

impl Clone for Rendition {
    fn clone(&self) -> (r: Rendition)
        ensures
            r == *self,
            r@ == self@,
    {
        Rendition {
            source: self.source.clone(),
            uri: self.uri.clone(),
            duration_ms: self.duration_ms,
            quality: self.quality,
            link: self.link,
            added_at: self.added_at,
        }
    }
}

impl Rendition {
    /// A rendition that is added by hand at the time `now`.
    pub fn fresh_at(
        source: SourceId,
        uri: String,
        duration_ms: u32,
        quality: Quality,
        now: Moment,
    ) -> (r: Rendition)
        ensures
            r@ == (RenditionView {
                source: source@,
                uri: uri@,
                duration_ms,
                quality,
                link: LinkReason::Manual,
                added_at: now,
            }),
    {
        Rendition { source, uri, duration_ms, quality, link: LinkReason::Manual, added_at: now }
    }

    /// A rendition that is added by hand now.
    pub fn fresh(source: SourceId, uri: String, duration_ms: u32, quality: Quality) -> (r:
        Rendition)
        ensures
            exists|now: Moment|
                r@ == (RenditionView {
                    source: source@,
                    uri: uri@,
                    duration_ms,
                    quality,
                    link: LinkReason::Manual,
                    added_at: now,
                }),
    {
        let now = Moment::now();
        Rendition::fresh_at(source, uri, duration_ms, quality, now)
    }
}

pub open spec fn opt_text(s: Option<String>) -> Option<Seq<char>> {
    match s {
        Some(t) => Some(t@),
        None => None,
    }
}

/// A track of the catalog.
pub struct Track {
    pub id: TrackId,
    pub title: String,
    pub artists: Vec<String>,
    /// The best known length; 0 when unknown.
    pub duration_ms: u32,
    pub isrc: Option<String>,
    pub album: Option<String>,
    pub year: Option<u16>,
    /// What scanning found (tempo, key and the like), as display texts.
    pub attrs: StrMap<String>,
    pub tags: Vec<String>,
    pub renditions: Vec<Rendition>,
}

/// What a track holds.
pub struct TrackView {
    pub id: TrackId,
    pub title: Seq<char>,
    pub artists: Seq<Seq<char>>,
    pub duration_ms: u32,
    pub isrc: Option<Seq<char>>,
    pub album: Option<Seq<char>>,
    pub year: Option<u16>,
    pub attrs: Map<Seq<char>, String>,
    pub tags: Seq<Seq<char>>,
    pub renditions: Seq<RenditionView>,
}

pub open spec fn rendition_views(v: Seq<Rendition>) -> Seq<RenditionView> {
    v.map_values(|r: Rendition| r@)
}

pub open spec fn track_views(v: Seq<Track>) -> Seq<TrackView> {
    v.map_values(|t: Track| t@)
}

impl View for Track {
    type V = TrackView;

    open spec fn view(&self) -> TrackView {
        TrackView {
            id: self.id,
            title: self.title@,
            artists: str_views(self.artists@),
            duration_ms: self.duration_ms,
            isrc: opt_text(self.isrc),
            album: opt_text(self.album),
            year: self.year,
            attrs: self.attrs@,
            tags: str_views(self.tags@),
            renditions: rendition_views(self.renditions@),
        }
    }
}

pub fn clone_strings(v: &Vec<String>) -> (r: Vec<String>)
    ensures
        r@ == v@,
        str_views(r@) == str_views(v@),
{
    let mut out: Vec<String> = Vec::new();
    let mut i: usize = 0;
    while i < v.len()
        invariant
            i <= v@.len(),
            out@ == v@.take(i as int),
        decreases v@.len() - i,
    {
        out.push(v[i].clone());
        i = i + 1;
    }
    assert(out@ =~= v@);
    out
}

pub fn clone_renditions(v: &Vec<Rendition>) -> (r: Vec<Rendition>)
    ensures
        r@ == v@,
        rendition_views(r@) == rendition_views(v@),
{
    let mut out: Vec<Rendition> = Vec::new();
    let mut i: usize = 0;
    while i < v.len()
        invariant
            i <= v@.len(),
            out@ == v@.take(i as int),
        decreases v@.len() - i,
    {
        out.push(v[i].clone());
        i = i + 1;
    }
    assert(out@ =~= v@);
    out
}

pub fn clone_opt(s: &Option<String>) -> (r: Option<String>)
    ensures
        r == *s,
        opt_text(r) == opt_text(*s),
{
    match s {
        Some(t) => Some(t.clone()),
        None => None,
    }
}

impl Clone for Track {
    fn clone(&self) -> (r: Track)
        ensures
            r@ == self@,
    {
        Track {
            id: self.id,
            title: self.title.clone(),
            artists: clone_strings(&self.artists),
            duration_ms: self.duration_ms,
            isrc: clone_opt(&self.isrc),
            album: clone_opt(&self.album),
            year: self.year,
            attrs: self.attrs.duplicate(),
            tags: clone_strings(&self.tags),
            renditions: clone_renditions(&self.renditions),
        }
    }
}

/// The artists for display.
pub open spec fn artist_line(artists: Seq<Seq<char>>) -> Seq<char> {
    if artists.len() == 0 {
        "Unknown Artist"@
    } else {
        joined(artists, ", "@)
    }
}

/// The name of a track for display.
pub open spec fn track_name(t: TrackView) -> Seq<char> {
    if t.artists.len() == 0 {
        t.title
    } else {
        artist_line(t.artists) + " - "@ + t.title
    }
}

/// A length in milliseconds as minutes and seconds.
pub open spec fn minutes_text(ms: u32) -> Seq<char> {
    if ms == 0 {
        "?:??"@
    } else {
        let total = ms / 1000;
        decimal((total / 60) as nat) + ":"@ + two_digits((total % 60) as nat)
    }
}

pub open spec fn two_digits(n: nat) -> Seq<char> {
    if n < 10 {
        "0"@ + decimal(n)
    } else {
        decimal(n)
    }
}

/// The different texts of a row, each where it first occurs.
pub open spec fn distinct(s: Seq<Seq<char>>) -> Seq<Seq<char>>
    decreases s.len(),
{
    if s.len() == 0 {
        seq![]
    } else {
        let head = distinct(s.drop_last());
        if head.contains(s.last()) {
            head
        } else {
            head.push(s.last())
        }
    }
}

/// The names of the sources of a row of renditions.
pub open spec fn source_names(v: Seq<RenditionView>) -> Seq<Seq<char>> {
    v.map_values(|r: RenditionView| r.source)
}

/// The labels of the sources of a row of renditions.
pub open spec fn source_labels(v: Seq<RenditionView>) -> Seq<Seq<char>> {
    v.map_values(|r: RenditionView| short_label(r.source))
}

fn contains_chars(v: &Vec<Vec<char>>, c: &[char]) -> (r: bool)
    ensures
        r == chars_views(v@).contains(c@),
{
    let mut i: usize = 0;
    while i < v.len()
        invariant
            i <= v@.len(),
            forall|j: int| 0 <= j < i ==> v@[j]@ != c@,
        decreases v@.len() - i,
    {
        if crate::text::same_chars(&v[i], c) {
            assert(chars_views(v@)[i as int] == c@);
            return true;
        }
        i = i + 1;
    }
    proof {
        if chars_views(v@).contains(c@) {
            let j = choose|j: int| 0 <= j < v@.len() && chars_views(v@)[j] == c@;
            assert(v@[j]@ == c@);
        }
    }
    false
}

pub fn push_two_digits(out: &mut Vec<char>, n: u64)
    ensures
        final(out)@ == old(out)@ + two_digits(n as nat),
{
    if n < 10 {
        append_str(out, "0");
    }
    append_decimal(out, n);
    assert(out@ =~= old(out)@ + two_digits(n as nat));
}

/// A length in milliseconds as minutes and seconds, `?:??` when it is unknown.
pub fn format_minutes(ms: u32) -> (r: String)
    ensures
        r@ == minutes_text(ms),
{
    if ms == 0 {
        return "?:??".to_owned();
    }
    let total: u32 = ms / 1000;
    let mut out: Vec<char> = Vec::new();
    append_decimal(&mut out, (total / 60) as u64);
    append_str(&mut out, ":");
    push_two_digits(&mut out, (total % 60) as u64);
    assert(out@ =~= minutes_text(ms));
    string_of(&out)
}

impl Track {
    /// A track with one rendition, under the identifier `id`.
    pub fn fresh_with(id: TrackId, title: String, artists: Vec<String>, rendition: Rendition) -> (r:
        Track)
        ensures
            r@ == fresh_track(id, title@, str_views(artists@), rendition@),
    {
        let duration_ms: u32 = rendition.duration_ms;
        let mut renditions: Vec<Rendition> = Vec::new();
        renditions.push(rendition);
        let r = Track {
            id,
            title,
            artists,
            duration_ms,
            isrc: None,
            album: None,
            year: None,
            attrs: StrMap::new(),
            tags: Vec::new(),
            renditions,
        };
        assert(r@.renditions =~= seq![rendition@]);
        assert(r@.tags =~= Seq::<Seq<char>>::empty());
        r
    }

    /// A track with one rendition, under a new identifier.
    pub fn fresh(title: String, artists: Vec<String>, rendition: Rendition) -> (r: Track)
        ensures
            random_uuid(r.id.0),
            r@ == fresh_track(r.id, title@, str_views(artists@), rendition@),
    {
        let id = TrackId::new();
        Track::fresh_with(id, title, artists, rendition)
    }

    /// The only rendition of a track that a source gave out.
    pub fn rendition(&self) -> (r: &Rendition)
        requires
            self.renditions@.len() == 1,
        ensures
            *r == self.renditions@[0],
    {
        &self.renditions[0]
    }

    pub fn display_artist(&self) -> (r: String)
        ensures
            r@ == artist_line(self@.artists),
    {
        if self.artists.len() == 0 {
            "Unknown Artist".to_owned()
        } else {
            join_strings(&self.artists, ", ")
        }
    }

    /// "Artist - Title", or the title alone when no artist is known.
    pub fn display_name(&self) -> (r: String)
        ensures
            r@ == track_name(self@),
    {
        if self.artists.len() == 0 {
            self.title.clone()
        } else {
            let mut out = self.display_artist();
            out.append(" - ");
            out.append(&self.title);
            out
        }
    }

    /// The names of the sources that have the track, in brackets.
    pub fn source_badges(&self) -> (r: String)
        ensures
            r@ == "["@ + joined(distinct(source_names(self@.renditions)), "+"@) + "]"@,
    {
        let ghost names = source_names(self@.renditions);
        let mut seen: Vec<Vec<char>> = Vec::new();
        let mut i: usize = 0;
        while i < self.renditions.len()
            invariant
                i <= self.renditions@.len(),
                names == source_names(self@.renditions),
                chars_views(seen@) == distinct(names.take(i as int)),
            decreases self.renditions@.len() - i,
        {
            let c = chars_of(self.renditions[i].source.as_str());
            proof {
                assert(names.take(i + 1).drop_last() =~= names.take(i as int));
                assert(names.take(i + 1).last() == c@);
            }
            if !contains_chars(&seen, &c) {
                let ghost before = seen@;
                seen.push(c);
                assert(chars_views(seen@) =~= chars_views(before).push(c@));
            }
            i = i + 1;
        }
        assert(names.take(i as int) =~= names);
        let plus = chars_of("+");
        let body = join(&seen, &plus);
        let mut out = "[".to_owned();
        out.append(&string_of(&body));
        out.append("]");
        out
    }

    /// The labels of the sources that have the track.
    pub fn source_badges_short(&self) -> (r: String)
        ensures
            r@ == joined(distinct(source_labels(self@.renditions)), "+"@),
    {
        let ghost names = source_labels(self@.renditions);
        let mut seen: Vec<Vec<char>> = Vec::new();
        let mut i: usize = 0;
        while i < self.renditions.len()
            invariant
                i <= self.renditions@.len(),
                names == source_labels(self@.renditions),
                chars_views(seen@) == distinct(names.take(i as int)),
            decreases self.renditions@.len() - i,
        {
            let c = chars_of(&self.renditions[i].source.short());
            proof {
                assert(names.take(i + 1).drop_last() =~= names.take(i as int));
                assert(names.take(i + 1).last() == c@);
            }
            if !contains_chars(&seen, &c) {
                let ghost before = seen@;
                seen.push(c);
                assert(chars_views(seen@) =~= chars_views(before).push(c@));
            }
            i = i + 1;
        }
        assert(names.take(i as int) =~= names);
        let plus = chars_of("+");
        let body = join(&seen, &plus);
        string_of(&body)
    }
}

/// The track that holds one rendition and nothing else is known of.
pub open spec fn fresh_track(
    id: TrackId,
    title: Seq<char>,
    artists: Seq<Seq<char>>,
    rendition: RenditionView,
) -> TrackView {
    TrackView {
        id,
        title,
        artists,
        duration_ms: rendition.duration_ms,
        isrc: None,
        album: None,
        year: None,
        attrs: Map::empty(),
        tags: seq![],
        renditions: seq![rendition],
    }
}

/// A list of tracks under a name.
#[derive(Debug)]
pub struct Playlist {
    pub id: PlaylistId,
    pub name: String,
    pub notes: String,
    pub items: Vec<TrackId>,
}

pub struct PlaylistView {
    pub id: PlaylistId,
    pub name: Seq<char>,
    pub notes: Seq<char>,
    pub items: Seq<TrackId>,
}

impl View for Playlist {
    type V = PlaylistView;

    open spec fn view(&self) -> PlaylistView {
        PlaylistView {
            id: self.id,
            name: self.name@,
            notes: self.notes@,
            items: self.items@,
        }
    }
}

impl Clone for Playlist {
    fn clone(&self) -> (r: Playlist)
        ensures
            r@ == self@,
    {
        Playlist {
            id: self.id,
            name: self.name.clone(),
            notes: self.notes.clone(),
            items: clone_ids(&self.items),
        }
    }
}

pub fn clone_ids(v: &Vec<TrackId>) -> (r: Vec<TrackId>)
    ensures
        r@ == v@,
{
    let mut out: Vec<TrackId> = Vec::new();
    let mut i: usize = 0;
    while i < v.len()
        invariant
            i <= v@.len(),
            out@ == v@.take(i as int),
        decreases v@.len() - i,
    {
        out.push(v[i]);
        i = i + 1;
    }
    assert(out@ =~= v@);
    out
}

#[derive(Clone, Copy, PartialEq, Eq, Structural, Hash, Debug)]
pub enum ItemKind {
    Track,
    Album,
    Playlist,
}

#[derive(Debug)]
pub struct SearchQuery {
    pub text: String,
    pub kinds: Vec<ItemKind>,
    /// How many results a source should give at most.
    pub limit: usize,
}

impl SearchQuery {
    /// A search for tracks.
    pub fn text(text: &str) -> (r: SearchQuery)
        ensures
            r.text@ == text@,
            r.kinds@ == seq![ItemKind::Track],
            r.limit == 100,
    {
        let mut kinds: Vec<ItemKind> = Vec::new();
        kinds.push(ItemKind::Track);
        SearchQuery { text: text.to_owned(), kinds, limit: 100 }
    }

    /// A search for tracks, albums and playlists.
    pub fn all_kinds(text: &str) -> (r: SearchQuery)
        ensures
            r.text@ == text@,
            r.kinds@ == seq![ItemKind::Track, ItemKind::Album, ItemKind::Playlist],
            r.limit == 100,
    {
        let mut r = SearchQuery::text(text);
        r.kinds.push(ItemKind::Album);
        r.kinds.push(ItemKind::Playlist);
        r
    }
}

} // verus!
