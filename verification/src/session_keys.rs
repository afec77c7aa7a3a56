//! The keys of a running player, and what their letters say of tracks.

use vstd::prelude::*;
use crate::actions::{action_id, BuiltinAction};
use crate::hotkeys::{
    bound, defaulting_to, effective_target, held_by_action, hides_nothing, opt_target, other_than, picked, whole_table,
    HotkeyTarget, HotkeyView,
};
use crate::ids::{uuid_text, uuid_to_text};
use crate::playback::{PlaybackView, World};
use crate::queue::bumped;
use crate::remote::list_ids;
use crate::scan::within;
use crate::session::{source_at, synthetic_in, touched, HotkeyMembership, HotkeyMemo, Session, SessionView, SourceView};
use crate::session_events::{fetch_views, Fetch, FetchView};
use crate::session_views::{items_in, reserved};
use crate::store::playlist_of;
use crate::text::{debug_text, quoted};
use crate::traits::BrowseNode;
use crate::types::{PlaylistId, SourceId, TrackId};
use crate::remote::ListView;
use crate::view_cache::{
    changes_of, ensured, list_of, shown_rows, track_pending, tracks_in, with_list, CacheView,
};
use crate::warnings::{warned, WarningsView};

verus! {

/// How long a table with playlists that have not loaded is kept, in milliseconds.
pub const HOTKEY_MEMO_LOADING_RECHECK: u64 = 1000;

/// Why a key was not bound.
pub enum BindError {
    /// The key is that of an action.
    BuiltinKey(HotkeyTarget),
    /// The target is no real playlist.
    SyntheticPlaylist,
}

pub open spec fn is_synthetic(sources: Seq<SourceView>, t: HotkeyView) -> bool {
    t matches HotkeyView::Remote(s, n) && synthetic_in(sources, s, n)
}

/// Picks the entries that are no synthetic playlists.
pub open spec fn not_synthetic(sources: Seq<SourceView>) -> spec_fn(char, HotkeyView) -> bool {
    |k: char, u: HotkeyView| !is_synthetic(sources, u)
}

pub open spec fn has_synthetic(v: SessionView) -> bool {
    exists|k: char| #[trigger] v.keys.dom().contains(k) && is_synthetic(v.sources, v.keys[k])
}

/// Keys of places that are no playlists are dropped.
pub open spec fn s_prune(v: SessionView) -> SessionView {
    SessionView {
        keys: picked(v.keys, not_synthetic(v.sources)),
        keys_gen: if has_synthetic(v) {
            bumped(v.keys_gen)
        } else {
            v.keys_gen
        },
        memo_dirty: v.memo_dirty || has_synthetic(v),
        ..v
    }
}

/// A target as it is written in a warning.
pub open spec fn target_debug(t: HotkeyView) -> Seq<char> {
    match t {
        HotkeyView::Local(id) => "Local(PlaylistId("@ + uuid_text(id.0) + "))"@,
        HotkeyView::Remote(s, n) => "Remote(SourceId("@ + debug_text(s) + "), "@ + (match n {
            None => "Root"@,
            Some(p) => "Path("@ + debug_text(p) + ")"@,
        }) + ")"@,
        HotkeyView::Builtin(a) => "Builtin("@ + action_id(a) + ")"@,
    }
}

pub open spec fn warned_name(v: SessionView, t: HotkeyView) -> Seq<char> {
    match t {
        HotkeyView::Local(id) => match playlist_of(v.w.s, id) {
            Some(p) => if reserved(id.0) {
                target_debug(t)
            } else {
                p.name
            },
            None => target_debug(t),
        },
        _ => target_debug(t),
    }
}

pub open spec fn dropped_text(v: SessionView, d: (char, HotkeyView, BuiltinAction)) -> Seq<char> {
    "dropped '"@ + seq![d.0] + "' from playlist "@ + warned_name(v, d.1) + ": it is the key of built-in "@ + action_id(
        d.2,
    )
}

/// The warnings of entries that were dropped, one after the other.
pub open spec fn drop_warnings(v: SessionView, row: Seq<(char, HotkeyView, BuiltinAction)>, n: int) -> WarningsView
    decreases n,
{
    if n <= 0 || n > row.len() {
        v.w.p.warnings
    } else {
        warned(drop_warnings(v, row, n - 1), "hotkeys"@, dropped_text(v, row[n - 1]))
    }
}

pub open spec fn drop_views(v: Seq<(char, HotkeyTarget, BuiltinAction)>) -> Seq<(char, HotkeyView, BuiltinAction)> {
    v.map_values(|d: (char, HotkeyTarget, BuiltinAction)| (d.0, d.1@, d.2))
}

/// Whether a row lists the entries of a table that would hide an action, each once.
pub open spec fn hiding_entries(m: Map<char, HotkeyView>, row: Seq<(char, HotkeyView, BuiltinAction)>) -> bool {
    &&& forall|i: int|
        0 <= i < row.len() ==> {
            let (k, t, a) = #[trigger] row[i];
            m.dom().contains(k) && m[k] == t && !(t is Builtin) && defaulting_to(m, k) == Some(a)
        }
    &&& forall|k: char|
        m.dom().contains(k) && !#[trigger] hides_nothing(m)(k, m[k]) ==> exists|i: int|
            0 <= i < row.len() && (#[trigger] row[i]).0 == k
    &&& forall|i: int, j: int| 0 <= i < j < row.len() ==> (#[trigger] row[i]).0 != (#[trigger] row[j]).0
}

fn target_text_debug(t: &HotkeyTarget) -> (r: String)
    ensures
        r@ == target_debug(t@),
{
    match t {
        HotkeyTarget::Local(id) => {
            let mut s = "Local(PlaylistId(".to_owned();
            s.append(&uuid_to_text(id.0));
            s.append("))");
            s
        },
        HotkeyTarget::Remote(source, node) => {
            let mut s = "Remote(SourceId(".to_owned();
            s.append(&quoted(source.as_str()));
            s.append("), ");
            match node {
                BrowseNode::Root => {
                    s.append("Root");
                },
                BrowseNode::Path(p) => {
                    s.append("Path(");
                    s.append(&quoted(p));
                    s.append(")");
                },
            }
            s.append(")");
            assert(s@ =~= target_debug(t@));
            s
        },
        HotkeyTarget::Builtin(a) => {
            let mut s = "Builtin(".to_owned();
            s.append(a.id());
            s.append(")");
            s
        },
    }
}

impl Session {
    fn synthetic_target(&self, t: &HotkeyTarget) -> (r: bool)
        ensures
            r == is_synthetic(self@.sources, t@),
    {
        match t {
            HotkeyTarget::Remote(source, node) => self.is_synthetic_playlist(source, node),
            _ => false,
        }
    }

    pub(crate) fn prune_synthetic_hotkeys(&mut self)
        ensures
            final(self)@ == s_prune(old(self)@),
            final(self).playback == old(self).playback,
    {
        let all = self.hotkeys.list();
        let ghost keys = self@.keys;
        let ghost sources = self@.sources;
        let mut row: Vec<HotkeyTarget> = Vec::new();
        let mut i: usize = 0;
        while i < all.len()
            invariant
                i <= all@.len(),
                *self == *old(self),
                keys == self@.keys,
                sources == self@.sources,
                forall|j: int|
                    0 <= j < all@.len() ==> keys.dom().contains((#[trigger] all@[j]).0) && keys[all@[j].0] == all@[j].1@,
                forall|j: int| 0 <= j < row@.len() ==> is_synthetic(sources, (#[trigger] row@[j])@),
                forall|j: int|
                    0 <= j < i && is_synthetic(sources, (#[trigger] all@[j]).1@) ==> exists|k: int|
                        0 <= k < row@.len() && (#[trigger] row@[k])@ == all@[j].1@,
            decreases all@.len() - i,
        {
            if self.synthetic_target(&all[i].1) {
                let ghost before = row@;
                row.push(all[i].1.clone());
                proof {
                    assert(row@[before.len() as int]@ == all@[i as int].1@);
                    assert forall|j: int| 0 <= j < i && is_synthetic(sources, (#[trigger] all@[j]).1@) implies exists|k: int|
                        0 <= k < row@.len() && (#[trigger] row@[k])@ == all@[j].1@ by {
                        let k = choose|k: int| 0 <= k < before.len() && (#[trigger] before[k])@ == all@[j].1@;
                        assert(row@[k] == before[k]);
                    }
                }
            }
            i = i + 1;
        }
        let ghost views = Seq::new(row@.len(), |i: int| row@[i]@);
        proof {
            assert forall|k: char| #[trigger] keys.dom().contains(k) implies views.contains(keys[k]) == is_synthetic(
                sources,
                keys[k],
            ) by {
                if views.contains(keys[k]) {
                    let j = choose|j: int| 0 <= j < views.len() && views[j] == keys[k];
                    assert(views[j] == row@[j]@);
                }
                if is_synthetic(sources, keys[k]) {
                    let i = choose|i: int| 0 <= i < all@.len() && (#[trigger] all@[i]).0 == k;
                    let j = choose|j: int| 0 <= j < row@.len() && (#[trigger] row@[j])@ == all@[i].1@;
                    assert(views[j] == keys[k]);
                }
            }
        }
        let dropped = self.hotkeys.drop_targets(&row);
        if dropped {
            self.memo.dirty = true;
        }
        proof {
            assert(self@.keys =~= picked(keys, not_synthetic(sources)));
            assert(dropped == has_synthetic(old(self)@)) by {
                if has_synthetic(old(self)@) {
                    let k = choose|k: char| #[trigger] keys.dom().contains(k) && is_synthetic(sources, keys[k]);
                    assert(views.contains(keys[k]));
                }
            }
        }
    }

    /// The keys and what each stands for, in no order.
    pub fn hotkeys(&self) -> (r: Vec<(char, HotkeyTarget)>)
        ensures
            forall|i: int|
                0 <= i < r@.len() ==> self@.keys.dom().contains((#[trigger] r@[i]).0) && self@.keys[r@[i].0] == r@[i].1@,
            forall|k: char|
                self@.keys.dom().contains(k) ==> exists|i: int| 0 <= i < r@.len() && (#[trigger] r@[i]).0 == k,
            forall|i: int, j: int| 0 <= i < j < r@.len() ==> (#[trigger] r@[i]).0 != (#[trigger] r@[j]).0,
    {
        self.hotkeys.list()
    }

    /// What a key was bound to.
    pub fn hotkey_for(&self, key: char) -> (r: Option<HotkeyTarget>)
        ensures
            opt_target(r) == (if self@.keys.dom().contains(key) {
                Some(self@.keys[key])
            } else {
                None
            }),
    {
        self.hotkeys.get(key)
    }

    /// The key that was bound to a target.
    pub fn playlist_hotkey(&self, target: &HotkeyTarget) -> (r: Option<char>)
        ensures
            match r {
                Some(k) => self@.keys.dom().contains(k) && self@.keys[k] == target@,
                None => forall|k: char| #[trigger] self@.keys.dom().contains(k) ==> self@.keys[k] != target@,
            },
    {
        self.hotkeys.key_of(target)
    }

    /// Binds a key. What held it loses it and is returned; a key of an action and a target that
    /// is no real playlist are refused.
    pub fn bind_hotkey(&mut self, key: char, target: HotkeyTarget) -> (r: Result<Option<HotkeyTarget>, BindError>)
        ensures
            final(self).playback == old(self).playback,
            ({
                let v = touched(old(self)@);
                if is_synthetic(v.sources, target@) {
                    final(self)@ == v && (r matches Err(e) && e is SyntheticPlaylist)
                } else if held_by_action(v.keys, key, target@) {
                    final(self)@ == v && (r matches Err(BindError::BuiltinKey(o)) && Some(o@) == effective_target(
                        v.keys,
                        key,
                    ))
                } else {
                    &&& final(self)@ == (SessionView {
                        keys: bound(v.keys, key, target@),
                        keys_gen: bumped(v.keys_gen),
                        memo_dirty: true,
                        ..v
                    })
                    &&& r matches Ok(stolen) && opt_target(stolen) == (if v.keys.dom().contains(key) && v.keys[key]
                        != target@ {
                        Some(v.keys[key])
                    } else {
                        None
                    })
                }
            }),
    {
        self.touch();
        if self.synthetic_target(&target) {
            return Err(BindError::SyntheticPlaylist);
        }
        match self.hotkeys.bind(key, target) {
            Ok(stolen) => {
                self.memo.dirty = true;
                Ok(stolen)
            },
            Err(o) => Err(BindError::BuiltinKey(o)),
        }
    }

    /// Takes the key of a target away.
    pub fn unbind_hotkey(&mut self, target: &HotkeyTarget)
        ensures
            final(self)@ == (SessionView {
                keys: picked(old(self)@.keys, other_than(target@)),
                keys_gen: if exists|k: char| #[trigger]
                    old(self)@.keys.dom().contains(k) && old(self)@.keys[k] == target@ {
                    bumped(old(self)@.keys_gen)
                } else {
                    old(self)@.keys_gen
                },
                memo_dirty: true,
                ..touched(old(self)@)
            }),
            final(self).playback == old(self).playback,
    {
        self.touch();
        self.hotkeys.unbind(target);
        self.memo.dirty = true;
    }

    fn warned_target(&self, t: &HotkeyTarget) -> (r: String)
        ensures
            r@ == warned_name(self@, t@),
    {
        if let HotkeyTarget::Local(id) = t {
            if id.0 != 0 && id.0 != 1 && id.0 != 2 {
                if let Some(p) = self.catalog.store.get_playlist(*id) {
                    return p.name;
                }
            }
        }
        target_text_debug(t)
    }

    /// Takes a whole table of keys over; entries that would hide an action are dropped with a
    /// warning, and so are those of places that are no playlists.
    pub fn set_hotkeys(&mut self, entries: &Vec<(char, HotkeyTarget)>)
        requires
            forall|i: int, j: int| 0 <= i < j < entries@.len() ==> (#[trigger] entries@[i]).0 != (#[trigger] entries@[j]).0,
        ensures
            exists|row: Seq<(char, HotkeyView, BuiltinAction)>| #[trigger]
                hiding_entries(whole_table(entries@), row) && final(self)@ == s_set_keys(
                    old(self)@,
                    whole_table(entries@),
                    row,
                ),
            final(self).wf() == old(self).wf(),
    {
        self.touch();
        let ghost m = whole_table(entries@);
        let dropped = self.hotkeys.replace(entries);
        let ghost v1 = self@;
        let ghost row = drop_views(dropped@);
        let n: usize = dropped.len();
        let mut i: usize = 0;
        while i < n
            invariant
                i <= n == dropped@.len(),
                row == drop_views(dropped@),
                self@ == (SessionView {
                    w: World { p: PlaybackView { warnings: drop_warnings(v1, row, i as int), ..v1.w.p }, ..v1.w },
                    ..v1
                }),
                self.wf() == old(self).wf(),
            decreases n - i,
        {
            assert(row[i as int] == (dropped@[i as int].0, dropped@[i as int].1@, dropped@[i as int].2));
            let (key, target, action) = &dropped[i];
            let mut m = "dropped '".to_owned();
            m.push(*key);
            m.append("' from playlist ");
            m.append(&self.warned_target(target));
            m.append(": it is the key of built-in ");
            m.append(action.id());
            assert(m@ =~= dropped_text(v1, row[i as int]));
            self.playback.warnings.warn("hotkeys", &m);
            i = i + 1;
        }
        proof {
            assert(hiding_entries(m, row)) by {
                assert forall|i: int| 0 <= i < row.len() implies {
                    let (k, t, a) = #[trigger] row[i];
                    m.dom().contains(k) && m[k] == t && !(t is Builtin) && defaulting_to(m, k) == Some(a)
                } by {
                    assert(row[i].0 == dropped@[i].0);
                }
                assert forall|k: char| m.dom().contains(k) && !#[trigger] hides_nothing(m)(k, m[k]) implies exists|i: int|
                    0 <= i < row.len() && (#[trigger] row[i]).0 == k by {
                    let i = choose|i: int| 0 <= i < dropped@.len() && (#[trigger] dropped@[i]).0 == k;
                    assert(row[i].0 == k);
                }
                assert forall|i: int, j: int| 0 <= i < j < row.len() implies (#[trigger] row[i]).0 != (
                #[trigger] row[j]).0 by {
                    assert(row[i].0 == dropped@[i].0 && row[j].0 == dropped@[j].0);
                }
            }
        }
        self.prune_synthetic_hotkeys();
    }
}

pub open spec fn s_set_keys(v: SessionView, m: Map<char, HotkeyView>, row: Seq<(char, HotkeyView, BuiltinAction)>) -> SessionView {
    let v1 = SessionView {
        keys: picked(m, hides_nothing(m)),
        keys_gen: bumped(v.keys_gen),
        ..touched(v)
    };
    s_prune(
        SessionView {
            w: World { p: PlaybackView { warnings: drop_warnings(v1, row, row.len() as int), ..v1.w.p }, ..v1.w },
            ..v1
        },
    )
}


/// Whether a key is that of a playlist whose tracks are shown.
pub open spec fn lettered(v: SessionView, t: HotkeyView) -> bool {
    !(t is Builtin) && !is_synthetic(v.sources, t)
}

pub open spec fn entry_views(v: Seq<(char, HotkeyTarget)>) -> Seq<(char, HotkeyView)> {
    v.map_values(|e: (char, HotkeyTarget)| (e.0, e.1@))
}

/// Whether a row lists the keys of playlists whose tracks are shown, in order.
pub open spec fn lettered_row(v: SessionView, row: Seq<(char, HotkeyView)>) -> bool {
    &&& forall|i: int|
        0 <= i < row.len() ==> v.keys.dom().contains((#[trigger] row[i]).0) && v.keys[row[i].0] == row[i].1 && lettered(
            v,
            row[i].1,
        )
    &&& forall|k: char|
        #[trigger] v.keys.dom().contains(k) && lettered(v, v.keys[k]) ==> exists|i: int|
            0 <= i < row.len() && (#[trigger] row[i]).0 == k
    &&& forall|i: int, j: int| 0 <= i < j < row.len() ==> (#[trigger] row[i]).0 < (#[trigger] row[j]).0
}

/// The remote playlists of the first `n` keys are asked for.
pub open spec fn s_nudged(v: SessionView, row: Seq<(char, HotkeyView)>, n: int) -> (CacheView, Seq<FetchView>)
    decreases n,
{
    if n <= 0 || n > row.len() {
        (v.cache, seq![])
    } else {
        let (c, out) = s_nudged(v, row, n - 1);
        match row[n - 1].1 {
            HotkeyView::Remote(s, node) => {
                let (l, b) = ensured(v.w.s, list_of(c, s, node), 0, s, node);
                if source_at(v.sources, s, 0) is Some || b is None {
                    (
                        with_list(c, s, node, l),
                        match b {
                            Some(browse) => out.push(FetchView::Tracks { source: s, node, browse }),
                            None => out,
                        },
                    )
                } else {
                    (with_list(c, s, node, ListView { browsing: false, ..l }), out)
                }
            },
            _ => (c, out),
        }
    }
}

/// What the letter of a key says of tracks.
pub open spec fn row_of(v: SessionView, c: CacheView, t: HotkeyView, m: HotkeyMembership) -> bool {
    match t {
        HotkeyView::Local(id) => m.members@ == items_in(v, id) && m.pending@.len() == 0,
        HotkeyView::Remote(s, n) => {
            &&& m.members@ == list_ids(shown_rows(changes_of(c, s, n), tracks_in(c, s, n)))
            &&& forall|id: TrackId| #[trigger] m.pending@.contains(id) <==> track_pending(changes_of(c, s, n), id)
        },
        HotkeyView::Builtin(_) => true,
    }
}

/// Whether a remote playlist of the first `n` keys has not loaded yet.
pub open spec fn any_loading(v: SessionView, row: Seq<(char, HotkeyView)>, n: int) -> bool {
    exists|i: int| 0 <= i < n && #[trigger] loading_at(v, row, i)
}

pub open spec fn loading_at(v: SessionView, row: Seq<(char, HotkeyView)>, i: int) -> bool {
    row[i].1 matches HotkeyView::Remote(s, n) && (list_of(s_nudged(v, row, i + 1).0, s, n) matches Some(l) ==> l.partial)
}

/// Whether a table says of the first `n` keys what holds.
pub open spec fn table_of(v: SessionView, row: Seq<(char, HotkeyView)>, table: Seq<HotkeyMembership>, n: int) -> bool {
    &&& table.len() == n
    &&& forall|i: int|
        0 <= i < n ==> (#[trigger] table[i]).key == row[i].0 && row_of(v, s_nudged(v, row, i + 1).0, row[i].1, table[i])
}

/// Whether the table is to be built anew.
pub open spec fn memo_stale(m: HotkeyMemo, now: u64) -> bool {
    m.dirty || (m.loading && !within(m.built, now, HOTKEY_MEMO_LOADING_RECHECK))
}

impl Session {
    fn lettered_target(&self, t: &HotkeyTarget) -> (r: bool)
        ensures
            r == lettered(self@, t@),
    {
        !t.is_builtin() && !self.synthetic_target(t)
    }

    fn lettered_keys(&self) -> (r: Vec<(char, HotkeyTarget)>)
        ensures
            lettered_row(self@, entry_views(r@)),
    {
        let all = self.hotkeys.list();
        let ghost v = self@;
        let mut out: Vec<(char, HotkeyTarget)> = Vec::new();
        let mut i: usize = 0;
        while i < all.len()
            invariant
                i <= all@.len(),
                v == self@,
                forall|j: int|
                    0 <= j < all@.len() ==> v.keys.dom().contains((#[trigger] all@[j]).0) && v.keys[all@[j].0]
                        == all@[j].1@,
                forall|a: int, b: int| 0 <= a < b < all@.len() ==> (#[trigger] all@[a]).0 != (#[trigger] all@[b]).0,
                forall|j: int|
                    0 <= j < out@.len() ==> seen(all@, i as int, (#[trigger] out@[j]).0) && v.keys.dom().contains(out@[j].0)
                        && v.keys[out@[j].0] == out@[j].1@ && lettered(v, out@[j].1@),
                forall|k: int|
                    0 <= k < i && lettered(v, (#[trigger] all@[k]).1@) ==> seen(out@, out@.len() as int, all@[k].0),
                in_key_order(out@),
            decreases all@.len() - i,
        {
            proof {
                assert forall|k: char| seen(all@, i as int, k) implies #[trigger] seen(all@, i + 1, k) by {
                    let j = choose|j: int| 0 <= j < i && (#[trigger] all@[j]).0 == k;
                    assert(all@[j].0 == k);
                }
                assert(!seen(all@, i as int, all@[i as int].0));
                assert(seen(all@, i + 1, all@[i as int].0));
            }
            if self.lettered_target(&all[i].1) {
                let ghost before = out@;
                let p: usize = insert_key(&mut out, all[i].0, all[i].1.clone());
                proof {
                    assert(out@[p as int].0 == all@[i as int].0);
                    assert forall|j: int| 0 <= j < out@.len() implies seen(all@, i + 1, (#[trigger] out@[j]).0)
                        && v.keys.dom().contains(out@[j].0) && v.keys[out@[j].0] == out@[j].1@ && lettered(
                        v,
                        out@[j].1@,
                    ) by {
                        if j < p {
                            assert(out@[j] == before[j]);
                        } else if j > p {
                            assert(out@[j] == before[j - 1]);
                        }
                    }
                    assert forall|k: int| 0 <= k < i + 1 && lettered(v, (#[trigger] all@[k]).1@) implies seen(
                        out@,
                        out@.len() as int,
                        all@[k].0,
                    ) by {
                        if k < i {
                            let j = choose|j: int| 0 <= j < before.len() && (#[trigger] before[j]).0 == all@[k].0;
                            if j < p {
                                assert(out@[j] == before[j]);
                            } else {
                                assert(out@[j + 1] == before[j]);
                            }
                        }
                    }
                }
            }
            i = i + 1;
        }
        proof {
            let row = entry_views(out@);
            assert forall|i: int| 0 <= i < row.len() implies v.keys.dom().contains((#[trigger] row[i]).0)
                && v.keys[row[i].0] == row[i].1 && lettered(v, row[i].1) by {
                assert(row[i] == (out@[i].0, out@[i].1@));
            }
            assert forall|k: char| #[trigger] v.keys.dom().contains(k) && lettered(v, v.keys[k]) implies exists|i: int|
                0 <= i < row.len() && (#[trigger] row[i]).0 == k by {
                let a = choose|a: int| 0 <= a < all@.len() && (#[trigger] all@[a]).0 == k;
                assert(seen(out@, out@.len() as int, all@[a].0));
                let j = choose|j: int| 0 <= j < out@.len() && (#[trigger] out@[j]).0 == all@[a].0;
                assert(row[j].0 == k);
            }
            assert forall|i: int, j: int| 0 <= i < j < row.len() implies (#[trigger] row[i]).0 < (#[trigger] row[j]).0 by {
                assert(row[i].0 == out@[i].0 && row[j].0 == out@[j].0);
            }
        }
        out
    }

    fn nudge(&mut self, source: &SourceId, node: &BrowseNode, out: &mut Vec<Fetch>)
        ensures
            ({
                let v = old(self)@;
                let (l, b) = ensured(v.w.s, list_of(v.cache, source@, node@), 0, source@, node@);
                if source_at(v.sources, source@, 0) is Some || b is None {
                    &&& final(self)@ == (SessionView { cache: with_list(v.cache, source@, node@, l), ..v })
                    &&& fetch_views(final(out)@) == (match b {
                        Some(browse) => fetch_views(old(out)@).push(
                            FetchView::Tracks { source: source@, node: node@, browse },
                        ),
                        None => fetch_views(old(out)@),
                    })
                } else {
                    &&& final(self)@ == (SessionView {
                        cache: with_list(v.cache, source@, node@, ListView { browsing: false, ..l }),
                        ..v
                    })
                    &&& fetch_views(final(out)@) == fetch_views(old(out)@)
                }
            }),
            final(self).playback == old(self).playback,
            final(self).memo == old(self).memo,
    {
        let known: bool = self.source(source).is_some();
        if let Some(browse) = self.cache.ensure_tracks(source, node, 0, known, &self.catalog.store) {
            let ghost before = out@;
            let f = Fetch::Tracks { source: source.clone(), node: node.clone(), browse };
            out.push(f);
            assert(fetch_views(out@) =~= fetch_views(before).push(f@));
        }
    }

    /// Brings the table of what the letters of the keys say of tracks up to date, and asks for the
    /// playlists that have not loaded.
    pub fn hotkey_memberships(&mut self, now: u64) -> (r: Vec<Fetch>)
        ensures
            final(self).playback == old(self).playback,
            if memo_stale(old(self).memo, now) {
                exists|row: Seq<(char, HotkeyView)>| #[trigger]
                    lettered_row(old(self)@, row) && {
                        let (c, out) = s_nudged(old(self)@, row, row.len() as int);
                        &&& final(self)@ == (SessionView { cache: c, memo_dirty: false, ..old(self)@ })
                        &&& fetch_views(r@) == out
                        &&& table_of(old(self)@, row, final(self).memo.table@, row.len() as int)
                        &&& final(self).memo.loading == any_loading(old(self)@, row, row.len() as int)
                        &&& final(self).memo.built == now
                    }
            } else {
                *final(self) == *old(self) && r@.len() == 0
            },
    {
        let mut out: Vec<Fetch> = Vec::new();
        let stale: bool = self.memo.dirty || (self.memo.loading && now.saturating_sub(self.memo.built)
            >= HOTKEY_MEMO_LOADING_RECHECK);
        if !stale {
            return out;
        }
        let ghost v = self@;
        let keys = self.lettered_keys();
        let ghost row = entry_views(keys@);
        let mut table: Vec<HotkeyMembership> = Vec::new();
        let mut loading: bool = false;
        let n: usize = keys.len();
        let mut i: usize = 0;
        assert(fetch_views(out@) =~= seq![]);
        while i < n
            invariant
                i <= n == keys@.len(),
                row == entry_views(keys@),
                row.len() == n,
                v == old(self)@,
                lettered_row(v, row),
                self@ == (SessionView { cache: s_nudged(v, row, i as int).0, ..v }),
                fetch_views(out@) == s_nudged(v, row, i as int).1,
                table_of(v, row, table@, i as int),
                loading == any_loading(v, row, i as int),
                self.playback == old(self).playback,
                self.memo == old(self).memo,
            decreases n - i,
        {
            let ghost before = table@;
            assert(row[i as int] == (keys@[i as int].0, keys@[i as int].1@));
            let key = keys[i].0;
            let mut waits: bool = false;
            let m = match &keys[i].1 {
                HotkeyTarget::Local(id) => HotkeyMembership {
                    key,
                    members: self.playlist_track_ids(*id),
                    pending: Vec::new(),
                },
                HotkeyTarget::Remote(source, node) => {
                    self.nudge(source, node, &mut out);
                    let members = self.cache.shown_ids(source, node);
                    waits = self.cache.remote_playlist_loading(source, node);
                    let pending = self.cache.remote_pending_rows(source, node).tracks;
                    HotkeyMembership { key, members, pending }
                },
                HotkeyTarget::Builtin(_) => HotkeyMembership { key, members: Vec::new(), pending: Vec::new() },
            };
            assert(row_of(v, s_nudged(v, row, i + 1).0, row[i as int].1, m));
            assert(waits == loading_at(v, row, i as int));
            table.push(m);
            loading = loading || waits;
            proof {
                lemma_table_grows(v, row, before, i as int, m);
                lemma_loading_grows(v, row, i as int);
            }
            i = i + 1;
        }
        self.memo = HotkeyMemo { table, dirty: false, loading, built: now };
        assert(lettered_row(v, row));
        out
    }
}

proof fn lemma_table_grows(v: SessionView, row: Seq<(char, HotkeyView)>, table: Seq<HotkeyMembership>, n: int, m: HotkeyMembership)
    requires
        0 <= n < row.len(),
        table_of(v, row, table, n),
        m.key == row[n].0,
        row_of(v, s_nudged(v, row, n + 1).0, row[n].1, m),
    ensures
        table_of(v, row, table.push(m), n + 1),
{
    let t = table.push(m);
    assert forall|j: int| 0 <= j < n + 1 implies (#[trigger] t[j]).key == row[j].0 && row_of(
        v,
        s_nudged(v, row, j + 1).0,
        row[j].1,
        t[j],
    ) by {
        if j < n {
            assert(t[j] == table[j]);
        }
    }
}

proof fn lemma_loading_grows(v: SessionView, row: Seq<(char, HotkeyView)>, n: int)
    requires
        0 <= n < row.len(),
    ensures
        any_loading(v, row, n + 1) == (any_loading(v, row, n) || loading_at(v, row, n)),
{
    if any_loading(v, row, n) {
        let j = choose|j: int| 0 <= j < n && #[trigger] loading_at(v, row, j);
        assert(loading_at(v, row, j));
    }
}

/// Whether a key is among the first `n` entries.
pub open spec fn seen(v: Seq<(char, HotkeyTarget)>, n: int, key: char) -> bool {
    exists|k: int| 0 <= k < n && (#[trigger] v[k]).0 == key
}

pub open spec fn in_key_order(v: Seq<(char, HotkeyTarget)>) -> bool {
    forall|a: int, b: int| 0 <= a < b < v.len() ==> (#[trigger] v[a]).0 < (#[trigger] v[b]).0
}

fn insert_key(v: &mut Vec<(char, HotkeyTarget)>, key: char, t: HotkeyTarget) -> (p: usize)
    requires
        in_key_order(old(v)@),
        !seen(old(v)@, old(v)@.len() as int, key),
    ensures
        p <= old(v)@.len(),
        final(v)@ == old(v)@.insert(p as int, (key, t)),
        in_key_order(final(v)@),
{
    let ghost before = v@;
    let n: usize = v.len();
    let mut p: usize = 0;
    while p < n && v[p].0 < key
        invariant
            p <= n == v@.len(),
            v@ == before,
            forall|a: int| 0 <= a < p ==> (#[trigger] before[a]).0 < key,
        decreases n - p,
    {
        p = p + 1;
    }
    proof {
        assert forall|a: int| p <= a < before.len() implies key < (#[trigger] before[a]).0 by {
            assert(before[p as int].0 != key);
            assert(p < before.len());
            if a > p {
                assert(before[p as int].0 < before[a].0);
            }
        }
    }
    v.insert(p, (key, t));
    proof {
        assert forall|a: int, b: int| 0 <= a < b < v@.len() implies (#[trigger] v@[a]).0 < (#[trigger] v@[b]).0 by {
            if a < p {
                assert(v@[a] == before[a]);
            } else if a > p {
                assert(v@[a] == before[a - 1]);
            }
            if b < p {
                assert(v@[b] == before[b]);
            } else if b > p {
                assert(v@[b] == before[b - 1]);
            }
        }
    }
    p
}

} // verus!
