//! What playback has to know of the world outside: the players, the files, the time, and chance.

use vstd::prelude::*;
use rand::seq::SliceRandom;
use crate::moment::Moment;
use crate::resolver::{contains_source, local_path, local_path_from_uri, source_views};
use crate::store::{rendition_key, rendition_key_of};
use crate::strmap::StrMap;
use crate::types::{LinkReason, Quality, Rendition, RenditionView, SourceId, Track, TrackView};

verus! {

/// A player under a source: which player it is, and the renditions it accepts: those of some
/// sources, but for single ones that it declines.
pub struct PlayerFacts {
    pub source: SourceId,
    pub player: u32,
    pub accepts: Vec<SourceId>,
    /// The declined renditions, by their keys.
    pub declines: StrMap<()>,
}

pub struct PlayerView {
    pub source: Seq<char>,
    pub player: u32,
    pub accepts: Seq<Seq<char>>,
    pub declines: Set<Seq<char>>,
}

/// Whether a player accepts a rendition.
pub open spec fn accepted(p: PlayerView, source: Seq<char>, uri: Seq<char>) -> bool {
    p.accepts.contains(source) && !p.declines.contains(rendition_key_of(source, uri))
}

impl View for PlayerFacts {
    type V = PlayerView;

    open spec fn view(&self) -> PlayerView {
        PlayerView {
            source: self.source@,
            player: self.player,
            accepts: source_views(self.accepts@),
            declines: self.declines@.dom(),
        }
    }
}

impl PlayerFacts {
    /// Whether the player accepts a rendition.
    pub fn accepts(&self, r: &Rendition) -> (b: bool)
        ensures
            b == accepted(self@, r@.source, r@.uri),
    {
        contains_source(&self.accepts, &r.source) && !self.declines.contains_key(
            &rendition_key(r.source.as_str(), &r.uri),
        )
    }
}

pub open spec fn player_views(v: Seq<PlayerFacts>) -> Seq<PlayerView> {
    v.map_values(|p: PlayerFacts| p@)
}

pub struct Env {
    pub players: Vec<PlayerFacts>,
    /// The files of the renditions in the cache, by their keys.
    pub cached: StrMap<String>,
    /// The local files that are there.
    pub files: StrMap<()>,
    pub now: Moment,
    /// Milliseconds of a clock that never goes back.
    pub ms: u64,
    /// An order for the tracks of the list that plays, by chance.
    pub deal: Vec<usize>,
}

pub struct EnvView {
    pub players: Seq<PlayerView>,
    pub cached: Map<Seq<char>, String>,
    pub files: Set<Seq<char>>,
    pub now: Moment,
    pub ms: u64,
    pub deal: Seq<usize>,
}

impl View for Env {
    type V = EnvView;

    open spec fn view(&self) -> EnvView {
        EnvView {
            players: player_views(self.players@),
            cached: self.cached@,
            files: self.files@.dom(),
            now: self.now,
            ms: self.ms,
            deal: self.deal@,
        }
    }
}

/// The first player under a source, from `i` on.
pub open spec fn player_under(v: Seq<PlayerView>, source: Seq<char>, i: int) -> Option<PlayerView>
    decreases v.len() - i,
{
    if i < 0 || i >= v.len() {
        None
    } else if v[i].source == source {
        Some(v[i])
    } else {
        player_under(v, source, i + 1)
    }
}

/// The first player that accepts a rendition, from `i` on.
pub open spec fn player_accepting(v: Seq<PlayerView>, source: Seq<char>, uri: Seq<char>, i: int) -> Option<u32>
    decreases v.len() - i,
{
    if i < 0 || i >= v.len() {
        None
    } else if accepted(v[i], source, uri) {
        Some(v[i].player)
    } else {
        player_accepting(v, source, uri, i + 1)
    }
}

/// The player for a rendition: the one under its source if it accepts it, else the first that
/// does.
pub open spec fn picked_player(v: Seq<PlayerView>, source: Seq<char>, uri: Seq<char>) -> Option<u32> {
    match player_under(v, source, 0) {
        Some(p) => if accepted(p, source, uri) {
            Some(p.player)
        } else {
            player_accepting(v, source, uri, 0)
        },
        None => player_accepting(v, source, uri, 0),
    }
}

/// Whether the local file of each rendition is there.
pub open spec fn presence(e: EnvView, t: TrackView) -> Seq<bool> {
    Seq::new(t.renditions.len(), |i: int| e.files.contains(local_path(t.renditions[i].uri)))
}

/// The file of the first rendition from `i` on that is in the cache.
pub open spec fn cached_file(e: EnvView, v: Seq<RenditionView>, i: int) -> Option<Seq<char>>
    decreases v.len() - i,
{
    if i < 0 || i >= v.len() {
        None
    } else {
        let k = rendition_key_of(v[i].source, v[i].uri);
        if e.cached.dom().contains(k) {
            Some(e.cached[k]@)
        } else {
            cached_file(e, v, i + 1)
        }
    }
}

/// The rendition that a file of the cache is played as.
pub open spec fn cache_rendition_of(path: Seq<char>, now: Moment) -> RenditionView {
    RenditionView {
        source: "local"@,
        uri: path,
        duration_ms: 0,
        quality: Quality::Lossy { kbps: Some(96) },
        link: LinkReason::Manual,
        added_at: now,
    }
}

impl Env {
    /// The player for a rendition.
    pub fn pick_player(&self, r: &Rendition) -> (p: Option<u32>)
        ensures
            p == picked_player(self@.players, r@.source, r@.uri),
    {
        let ghost v = self@.players;
        let source = &r.source;
        let ghost uri = r@.uri;
        let mut i: usize = 0;
        let n: usize = self.players.len();
        while i < n && !self.players[i].source.same(source)
            invariant
                i <= n == self.players@.len(),
                v == self@.players,
                player_under(v, source@, i as int) == player_under(v, source@, 0),
            decreases n - i,
        {
            assert(v[i as int] == self.players@[i as int]@);
            i = i + 1;
        }
        if i < n {
            assert(v[i as int] == self.players@[i as int]@);
            if self.players[i].accepts(r) {
                return Some(self.players[i].player);
            }
        }
        let ghost first = player_under(v, source@, 0);
        let mut i: usize = 0;
        while i < n
            invariant
                i <= n == self.players@.len(),
                v == self@.players,
                first == player_under(v, source@, 0),
                source == r.source,
                uri == r@.uri,
                first matches Some(p) ==> !accepted(p, source@, uri),
                player_accepting(v, source@, uri, i as int) == player_accepting(v, source@, uri, 0),
            decreases n - i,
        {
            assert(v[i as int] == self.players@[i as int]@);
            if self.players[i].accepts(r) {
                return Some(self.players[i].player);
            }
            i = i + 1;
        }
        None
    }

    /// Whether the local file of each rendition of a track is there.
    pub fn present(&self, t: &Track) -> (r: Vec<bool>)
        ensures
            r@ == presence(self@, t@),
            r@.len() == t.renditions@.len(),
    {
        let ghost v = t@.renditions;
        let mut out: Vec<bool> = Vec::new();
        let mut i: usize = 0;
        while i < t.renditions.len()
            invariant
                i <= t.renditions@.len(),
                v == t@.renditions,
                out@.len() == i,
                forall|j: int| 0 <= j < i ==> out@[j] == self@.files.contains(local_path(v[j].uri)),
            decreases t.renditions@.len() - i,
        {
            assert(v[i as int] == t.renditions@[i as int]@);
            out.push(self.files.contains_key(&local_path_from_uri(&t.renditions[i].uri)));
            i = i + 1;
        }
        assert(out@ =~= presence(self@, t@));
        out
    }

    /// The file of a track in the cache.
    pub fn cached_path(&self, t: &Track) -> (r: Option<String>)
        ensures
            match r {
                Some(p) => cached_file(self@, t@.renditions, 0) == Some(p@),
                None => cached_file(self@, t@.renditions, 0) is None,
            },
    {
        let ghost v = t@.renditions;
        let mut i: usize = 0;
        while i < t.renditions.len()
            invariant
                i <= t.renditions@.len(),
                v == t@.renditions,
                cached_file(self@, v, i as int) == cached_file(self@, v, 0),
            decreases t.renditions@.len() - i,
        {
            assert(v[i as int] == t.renditions@[i as int]@);
            let key = rendition_key(t.renditions[i].source.as_str(), &t.renditions[i].uri);
            if let Some(p) = self.cached.get(&key) {
                return Some(p.clone());
            }
            i = i + 1;
        }
        None
    }

    /// The rendition by which a track is played from the cache, if it is in it.
    pub fn cache_rendition(&self, t: &Track) -> (r: Option<Rendition>)
        ensures
            match r {
                Some(x) => cached_file(self@, t@.renditions, 0) is Some && x@ == cache_rendition_of(
                    cached_file(self@, t@.renditions, 0)->0,
                    self@.now,
                ),
                None => cached_file(self@, t@.renditions, 0) is None,
            },
    {
        match self.cached_path(t) {
            None => None,
            Some(p) => Some(
                Rendition {
                    source: SourceId::new("local"),
                    uri: p,
                    duration_ms: 0,
                    quality: Quality::Lossy { kbps: Some(96) },
                    link: LinkReason::Manual,
                    added_at: self.now,
                },
            ),
        }
    }

    /// Whether a track can be played at once.
    pub fn is_track_cached(&self, t: &Track) -> (r: bool)
        ensures
            r == (cached_file(self@, t@.renditions, 0) is Some),
    {
        self.cached_path(t).is_some()
    }
}

/// `rand`'s `SliceRandom::shuffle` with the thread's generator: the same items in an order that
/// is left to chance.
#[verifier::external_body]
fn shuffle(v: &mut Vec<usize>)
    ensures
        final(v)@.to_multiset() == old(v)@.to_multiset(),
{
    v.shuffle(&mut rand::rng());
}

/// An order of `n` tracks, by chance.
pub fn fresh_deal(n: usize) -> (r: Vec<usize>)
    ensures
        r@.to_multiset() == Seq::new(n as nat, |i: int| i as usize).to_multiset(),
{
    let mut v: Vec<usize> = Vec::new();
    let mut i: usize = 0;
    while i < n
        invariant
            i <= n,
            v@ =~= Seq::new(i as nat, |i: int| i as usize),
        decreases n - i,
    {
        v.push(i);
        i = i + 1;
    }
    shuffle(&mut v);
    v
}

} // verus!
