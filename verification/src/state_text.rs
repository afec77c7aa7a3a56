//! The text of the state document, the bound keys in it, and what the configuration gets wrong.

use vstd::prelude::*;
use crate::hotkeys::{
    storable_target, target_named, target_text, target_text_names_one, target_text_round_trip, HotkeyTarget, HotkeyView,
};
use crate::scan::{mode_name, ScanMode};
use crate::session_views::LastPlayed;
use crate::state::{
    keeps_last, last_pairs, last_view, lemma_last_quotable, lemma_mode_verbatim, pairs_of_last, text_in, text_value, LastView, Saved,
    SavedView,
};
use crate::state_doc::{
    as_paired, bare_key, closed_text, found, keys_at, lemma_with_line, line_text, lined_table, lines_text,
    nested_at, opt_str, pair_view,
    pair_views, paired, plain_lines, plain_value, quotable, quoted_value, readable, table_of_lines, table_of_texts,
    table_text, tables_only, toml_keys,
    toml_nested, toml_quoted, toml_table, top_of, verbatim, verbatim_pairs, whole_tables, with_line, written_table, Plain,
};
use crate::text::{append_decimal, append_str, chars_of, decimal, str_views, string_of};
use crate::types::opt_text;

verus! {

/// The target that a stored text names.
pub open spec fn named_target(s: Seq<char>) -> Option<HotkeyView> {
    if exists|t: HotkeyView| target_named(s, t) {
        Some(choose|t: HotkeyView| target_named(s, t))
    } else {
        None
    }
}

/// The key that an entry of the table binds, with its target.
pub open spec fn bound_by(text: Seq<char>, key: Seq<char>) -> Option<(char, HotkeyView)> {
    if key.len() != 1 {
        None
    } else {
        match text_in(toml_nested(text, "hotkeys"@, key)) {
            Some(p) => match named_target(p) {
                Some(t) => Some((key[0], t)),
                None => None,
            },
            None => None,
        }
    }
}

/// The keys that the entries of the table bind.
pub open spec fn bound_among(text: Seq<char>, keys: Seq<Seq<char>>) -> Seq<(char, HotkeyView)>
    decreases keys.len(),
{
    if keys.len() == 0 {
        seq![]
    } else {
        let before = bound_among(text, keys.drop_last());
        match bound_by(text, keys.last()) {
            Some(b) => before.push(b),
            None => before,
        }
    }
}

/// The keys that a state binds.
pub open spec fn bound_in(text: Seq<char>) -> Seq<(char, HotkeyView)> {
    match toml_keys(text, "hotkeys"@) {
        Some(keys) => bound_among(text, keys),
        None => seq![],
    }
}

pub open spec fn binding_view(b: (char, HotkeyTarget)) -> (char, HotkeyView) {
    (b.0, b.1@)
}

pub open spec fn binding_views(v: Seq<(char, HotkeyTarget)>) -> Seq<(char, HotkeyView)> {
    v.map_values(|b: (char, HotkeyTarget)| binding_view(b))
}

/// A state whose bound keys are read back.
pub open spec fn keeps_keys(text: Seq<char>, keys: Seq<(char, HotkeyView)>) -> bool {
    &&& table_of_texts(text, "hotkeys"@, binding_pairs(keys))
    &&& forall|i: int| 0 <= i < keys.len() ==> storable_target((#[trigger] keys[i]).1)
    &&& forall|i: int, j: int| 0 <= i < j < keys.len() ==> (#[trigger] keys[i]).0 != (#[trigger] keys[j]).0
}

/// The same keys are bound to the same targets.
pub open spec fn same_bindings(a: Seq<(char, HotkeyView)>, b: Seq<(char, HotkeyView)>) -> bool {
    forall|k: (char, HotkeyView)| #[trigger] a.contains(k) <==> b.contains(k)
}

/// Where a binding comes from.
proof fn lemma_bound_among(text: Seq<char>, keys: Seq<Seq<char>>, b: (char, HotkeyView))
    ensures
        bound_among(text, keys).contains(b) <==> exists|i: int|
            0 <= i < keys.len() && bound_by(text, #[trigger] keys[i]) == Some(b),
    decreases keys.len(),
{
    if keys.len() > 0 {
        let before = bound_among(text, keys.drop_last());
        lemma_bound_among(text, keys.drop_last(), b);
        let all = bound_among(text, keys);
        if all.contains(b) {
            let i = choose|i: int| 0 <= i < all.len() && all[i] == b;
            if i < before.len() {
                assert(before[i] == b);
                let j = choose|j: int| 0 <= j < keys.drop_last().len() && bound_by(text, #[trigger] keys.drop_last()[j]) == Some(b);
                assert(keys[j] == keys.drop_last()[j]);
            } else {
                assert(bound_by(text, keys[keys.len() - 1]) == Some(b));
            }
        }
        if exists|i: int| 0 <= i < keys.len() && bound_by(text, #[trigger] keys[i]) == Some(b) {
            let i = choose|i: int| 0 <= i < keys.len() && bound_by(text, #[trigger] keys[i]) == Some(b);
            if i < keys.len() - 1 {
                assert(keys.drop_last()[i] == keys[i]);
                let j = choose|j: int| 0 <= j < before.len() && before[j] == b;
                assert(all[j] == b);
            } else {
                assert(all[all.len() - 1] == b);
            }
        }
    }
}

/// The text of a pair, in a list with every key once.
proof fn lemma_paired_binding(keys: Seq<(char, HotkeyView)>, k: Seq<char>)
    requires
        forall|i: int, j: int| 0 <= i < j < keys.len() ==> (#[trigger] keys[i]).0 != (#[trigger] keys[j]).0,
    ensures
        forall|i: int| 0 <= i < keys.len() && seq![(#[trigger] keys[i]).0] == k ==> paired(binding_pairs(keys), k) == Some(
            target_text(keys[i].1),
        ),
        paired(binding_pairs(keys), k) is Some ==> exists|i: int| 0 <= i < keys.len() && seq![(#[trigger] keys[i]).0] == k,
    decreases keys.len(),
{
    let p = binding_pairs(keys);
    if keys.len() > 0 {
        let last = keys.last();
        assert(p.drop_last() =~= binding_pairs(keys.drop_last()));
        assert(p.last() == (seq![last.0], target_text(last.1)));
        lemma_paired_binding(keys.drop_last(), k);
        assert forall|i: int| 0 <= i < keys.len() && seq![(#[trigger] keys[i]).0] == k implies paired(p, k) == Some(
            target_text(keys[i].1),
        ) by {
            if i < keys.len() - 1 {
                assert(keys.drop_last()[i] == keys[i]);
                assert(keys[i].0 != keys[keys.len() - 1].0);
                assert(seq![keys[i].0][0] == keys[i].0);
                assert(seq![last.0][0] == last.0);
            }
        }
        if paired(p, k) is Some {
            if p.last().0 == k {
                assert(seq![keys[keys.len() - 1].0] == k);
            } else {
                let i = choose|i: int| 0 <= i < keys.drop_last().len() && seq![(#[trigger] keys.drop_last()[i]).0] == k;
                assert(keys[i] == keys.drop_last()[i]);
                assert(seq![keys[i].0] == k);
            }
        }
    }
}

/// The keys that were put into a state are bound by it, and no others.
proof fn lemma_keys_given_back(text: Seq<char>, names: Seq<Seq<char>>, keys: Seq<(char, HotkeyView)>)
    requires
        keeps_keys(text, keys),
        forall|i: int| 0 <= i < names.len() ==> as_paired(
            toml_nested(text, "hotkeys"@, #[trigger] names[i]),
            paired(binding_pairs(keys), names[i]),
        ) || names[i].len() != 1,
        forall|i: int| 0 <= i < keys.len() ==> names.contains(seq![(#[trigger] keys[i]).0]),
    ensures
        same_bindings(bound_among(text, names), keys),
{
    assert forall|b: (char, HotkeyView)| #[trigger] bound_among(text, names).contains(b) <==> keys.contains(b) by {
        lemma_bound_among(text, names, b);
        if bound_among(text, names).contains(b) {
            let i = choose|i: int| 0 <= i < names.len() && bound_by(text, #[trigger] names[i]) == Some(b);
            let k = names[i];
            lemma_paired_binding(keys, k);
            let j = choose|j: int| 0 <= j < keys.len() && seq![(#[trigger] keys[j]).0] == k;
            assert(seq![keys[j].0] == k);
            assert(k[0] == keys[j].0);
            let t = target_text(keys[j].1);
            target_text_round_trip(keys[j].1);
            assert(target_named(t, keys[j].1));
            target_text_names_one(t, keys[j].1, named_target(t)->0);
            assert(keys[j] == b);
        }
        if keys.contains(b) {
            let j = choose|j: int| 0 <= j < keys.len() && keys[j] == b;
            let k = seq![keys[j].0];
            assert(names.contains(k));
            let i = choose|i: int| 0 <= i < names.len() && names[i] == k;
            lemma_paired_binding(keys, k);
            let t = target_text(b.1);
            target_text_round_trip(b.1);
            assert(target_named(t, b.1));
            target_text_names_one(t, b.1, named_target(t)->0);
            assert(bound_by(text, names[i]) == Some(b));
        }
    }
}

/// The keys that a state binds; an entry that is no single character or names no target is
/// passed over. What `save_state` wrote is given back, as long as the document can be read.
pub fn read_hotkeys(text: &str) -> (r: Vec<(char, HotkeyTarget)>)
    ensures
        binding_views(r@) == bound_in(text@),
        forall|i: int, j: int| 0 <= i < j < r@.len() ==> (#[trigger] r@[i]).0 != (#[trigger] r@[j]).0,
        forall|keys: Seq<(char, HotkeyView)>| #[trigger]
            keeps_keys(text@, keys) && readable(text@) ==> same_bindings(binding_views(r@), keys),
{
    let mut out: Vec<(char, HotkeyTarget)> = Vec::new();
    let keys: Vec<String> = match keys_at(text, "hotkeys") {
        Some(keys) => keys,
        None => {
            assert(binding_views(out@) =~= seq![]);
            assert forall|kept: Seq<(char, HotkeyView)>| #[trigger]
                keeps_keys(text@, kept) && readable(text@) implies same_bindings(binding_views(out@), kept) by {
                if kept.len() > 0 {
                    assert(table_of_texts(text@, "hotkeys"@, binding_pairs(kept)));
                    let p = binding_pairs(kept)[0];
                }
            }
            return out;
        },
    };
    let ghost all = str_views(keys@);
    let n: usize = keys.len();
    let mut i: usize = 0;
    assert(all.take(0) =~= seq![]);
    assert(binding_views(out@) =~= seq![]);
    while i < n
        invariant
            i <= n == keys@.len(),
            all == str_views(keys@),
            all.len() == n,
            binding_views(out@) == bound_among(text@, all.take(i as int)),
            all.no_duplicates(),
            forall|k: int| 0 <= k < out@.len() ==> all.take(i as int).contains(seq![(#[trigger] out@[k]).0]),
            forall|j: int, k: int| 0 <= j < k < out@.len() ==> (#[trigger] out@[j]).0 != (#[trigger] out@[k]).0,
            forall|kept: Seq<(char, HotkeyView)>, k: int|
                #![trigger keeps_keys(text@, kept), all[k]]
                keeps_keys(text@, kept) && readable(text@) && 0 <= k < i ==> as_paired(
                    toml_nested(text@, "hotkeys"@, all[k]),
                    paired(binding_pairs(kept), all[k]),
                ) || all[k].len() != 1,
        decreases n - i,
    {
        let ghost before = out@;
        let k = chars_of(&keys[i]);
        proof {
            assert(all.take(i + 1).drop_last() =~= all.take(i as int));
            assert(all.take(i + 1).last() == keys@[i as int]@);
        }
        assert forall|x: int| 0 <= x < before.len() implies all.take(i + 1).contains(seq![(#[trigger] before[x]).0]) by {
            let y = choose|y: int| 0 <= y < i && all.take(i as int)[y] == seq![before[x].0];
            assert(all.take(i + 1)[y] == seq![before[x].0]);
        }
        if k.len() == 1 {
            let entry = nested_at(text, "hotkeys", &keys[i]);
            assert forall|kept: Seq<(char, HotkeyView)>| #[trigger]
                keeps_keys(text@, kept) && readable(text@) implies as_paired(
                toml_nested(text@, "hotkeys"@, all[i as int]),
                paired(binding_pairs(kept), all[i as int]),
            ) by {
                assert(table_of_texts(text@, "hotkeys"@, binding_pairs(kept)));
            }
            if let Some(p) = text_value(entry) {
                if let Some(t) = HotkeyTarget::from_text(&p) {
                    let ghost tv = t@;
                    proof {
                        assert(target_named(p@, tv));
                        target_text_names_one(p@, tv, named_target(p@)->0);
                    }
                    proof {
                        assert(seq![k@[0]] =~= k@);
                        assert(all.take(i + 1)[i as int] == k@);
                        assert forall|x: int| 0 <= x < before.len() implies (#[trigger] before[x]).0 != k@[0] by {
                            if before[x].0 == k@[0] {
                                let y = choose|y: int| 0 <= y < i && all.take(i as int)[y] == seq![before[x].0];
                                assert(all[y] == all[i as int]);
                            }
                        }
                    }
                    out.push((k[0], t));
                    assert(binding_views(out@) =~= binding_views(before).push((k@[0], tv)));
                }
            }
        }
        i = i + 1;
    }
    assert(all.take(n as int) =~= all);
    assert forall|kept: Seq<(char, HotkeyView)>| #[trigger]
        keeps_keys(text@, kept) && readable(text@) implies same_bindings(binding_views(out@), kept) by {
        assert forall|x: int| 0 <= x < kept.len() implies all.contains(seq![(#[trigger] kept[x]).0]) by {
            assert(table_of_texts(text@, "hotkeys"@, binding_pairs(kept)));
            assert(binding_pairs(kept)[x].0 == seq![kept[x].0]);
        }
        lemma_keys_given_back(text@, all, kept);
    }
    out
}

/// The entries of the table of bound keys.
pub open spec fn binding_pairs(v: Seq<(char, HotkeyView)>) -> Seq<(Seq<char>, Seq<char>)> {
    v.map_values(|b: (char, HotkeyView)| (seq![b.0], target_text(b.1)))
}

fn pairs_of_bindings(v: &Vec<(char, HotkeyTarget)>) -> (r: Vec<(String, String)>)
    ensures
        pair_views(r@) == binding_pairs(binding_views(v@)),
        r@.len() == v@.len(),
        forall|i: int| 0 <= i < r@.len() ==> #[trigger] r@[i].1@ == target_text(v@[i].1@),
{
    let mut out: Vec<(String, String)> = Vec::new();
    let n: usize = v.len();
    let mut i: usize = 0;
    while i < n
        invariant
            i <= n == v@.len(),
            out@.len() == i,
            forall|k: int| 0 <= k < i ==> #[trigger] pair_view(out@[k]) == (seq![v@[k].0], target_text(v@[k].1@)),
        decreases n - i,
    {
        let mut key: Vec<char> = Vec::new();
        key.push(v[i].0);
        assert(key@ =~= seq![v@[i as int].0]);
        out.push((string_of(&key), v[i].1.to_text()));
        i = i + 1;
    }
    assert forall|k: int| 0 <= k < n implies #[trigger] out@[k].1@ == target_text(v@[k].1@) by {
        assert(pair_view(out@[k]).1 == target_text(v@[k].1@));
    }
    assert(pair_views(out@) =~= binding_pairs(binding_views(v@))) by {
        assert forall|k: int| 0 <= k < n implies #[trigger] pair_views(out@)[k] == binding_pairs(binding_views(v@))[k] by {
            assert(pair_views(out@)[k] == pair_view(out@[k]));
            assert(binding_views(v@)[k] == binding_view(v@[k]));
        }
    }
    out
}

pub open spec fn flag_text(b: bool) -> Seq<char> {
    if b {
        "true"@
    } else {
        "false"@
    }
}

pub open spec fn number_line(key: Seq<char>, v: Option<u32>) -> Seq<char> {
    match v {
        Some(n) => key + " = "@ + decimal(n as nat) + "\n"@,
        None => seq![],
    }
}

pub open spec fn flag_line(key: Seq<char>, v: Option<bool>) -> Seq<char> {
    match v {
        Some(b) => key + " = "@ + flag_text(b) + "\n"@,
        None => seq![],
    }
}

pub open spec fn text_line(key: Seq<char>, v: Option<Seq<char>>) -> Seq<char> {
    match v {
        Some(p) => key + " = "@ + toml_quoted(p) + "\n"@,
        None => seq![],
    }
}

pub open spec fn mode_line(v: Option<ScanMode>) -> Seq<char> {
    match v {
        Some(m) => "scan_mode = \""@ + mode_name(m) + "\"\n"@,
        None => seq![],
    }
}

/// A table below what is above it.
pub open spec fn table_part(table: Option<Seq<char>>) -> Seq<char> {
    match table {
        Some(t) => "\n"@ + t,
        None => seq![],
    }
}

pub open spec fn sources_part(s: SavedView) -> Seq<char> {
    if s.http is None && s.spotify is None && s.soundcloud is None && s.soulseek is None {
        seq![]
    } else {
        "\n[sources]\n"@ + flag_line("http"@, s.http) + flag_line("spotify"@, s.spotify) + flag_line(
            "soundcloud"@,
            s.soundcloud,
        ) + flag_line("soulseek"@, s.soulseek)
    }
}

/// The entries at the top of a state.
pub open spec fn top_part(volume: Seq<char>, s: SavedView) -> Seq<char> {
    "volume = "@ + volume + "\n"@ + number_line("vis_fps"@, s.vis_fps) + flag_line("status_line"@, s.status_line)
        + flag_line("show_hints"@, s.show_hints) + flag_line("auto_update"@, s.auto_update) + flag_line(
        "waveform_enabled"@,
        s.waveform_enabled,
    ) + text_line("liked_playlist"@, s.liked_playlist) + text_line("media_cache_dir"@, s.media_cache_dir) + text_line("media_cache_move_from"@, s.media_cache_move_from) + mode_line(s.scan_mode)
}

pub open spec fn keys_part(keys: Seq<(char, HotkeyView)>) -> Seq<char> {
    if keys.len() == 0 {
        seq![]
    } else {
        table_part(toml_table("hotkeys"@, binding_pairs(keys)))
    }
}

pub open spec fn last_part(l: Option<LastView>) -> Seq<char> {
    match l {
        Some(l) => table_part(toml_table("last_played"@, last_pairs(l))),
        None => seq![],
    }
}

/// The text of a state: the volume, what differs from the configuration, the bound keys, the
/// switched sources, the layout and what played last.
pub open spec fn state_text(
    volume: Seq<char>,
    s: SavedView,
    keys: Seq<(char, HotkeyView)>,
    layout: Option<Seq<char>>,
    last: Option<LastView>,
) -> Seq<char> {
    top_part(volume, s) + keys_part(keys) + sources_part(s) + table_part(layout) + last_part(last)
}

pub open spec fn flag_value(v: Option<bool>) -> Option<Plain> {
    match v {
        Some(b) => Some(Plain::Flag(b)),
        None => None,
    }
}

pub open spec fn text_plain(v: Option<Seq<char>>) -> Option<Plain> {
    match v {
        Some(t) => Some(Plain::Text(t)),
        None => None,
    }
}

/// The lines at the top of a state.
pub open spec fn top_lines(volume: Seq<char>, s: SavedView) -> Seq<(Seq<char>, Plain)> {
    let l = with_line(seq![], "volume"@, Some(Plain::Bare(volume)));
    let l = with_line(l, "vis_fps"@, match s.vis_fps {
        Some(n) => Some(Plain::Number(n)),
        None => None,
    });
    let l = with_line(l, "status_line"@, flag_value(s.status_line));
    let l = with_line(l, "show_hints"@, flag_value(s.show_hints));
    let l = with_line(l, "auto_update"@, flag_value(s.auto_update));
    let l = with_line(l, "waveform_enabled"@, flag_value(s.waveform_enabled));
    let l = with_line(l, "liked_playlist"@, text_plain(s.liked_playlist));
    let l = with_line(l, "media_cache_dir"@, text_plain(s.media_cache_dir));
    let l = with_line(l, "media_cache_move_from"@, text_plain(s.media_cache_move_from));
    with_line(l, "scan_mode"@, match s.scan_mode {
        Some(m) => Some(Plain::Text(mode_name(m))),
        None => None,
    })
}

/// The lines of the switched sources.
pub open spec fn source_lines(s: SavedView) -> Seq<(Seq<char>, Plain)> {
    let l = with_line(seq![], "http"@, flag_value(s.http));
    let l = with_line(l, "spotify"@, flag_value(s.spotify));
    let l = with_line(l, "soundcloud"@, flag_value(s.soundcloud));
    with_line(l, "soulseek"@, flag_value(s.soulseek))
}

pub open spec fn any_source(s: SavedView) -> bool {
    s.http is Some || s.spotify is Some || s.soundcloud is Some || s.soulseek is Some
}

/// A state whose settings are read back: its lines stand in it as they are.
pub open spec fn keeps(text: Seq<char>, volume: Seq<char>, s: SavedView) -> bool {
    top_of(text, top_lines(volume, s)) && (any_source(s) ==> table_of_lines(text, "sources"@, source_lines(s)))
}

/// Settings that need no escapes, with a volume that is a plain number and a layout that is a
/// table.
pub open spec fn keepable(volume: Seq<char>, s: SavedView, layout: Option<Seq<char>>) -> bool {
    &&& plain_value(Plain::Bare(volume))
    &&& s.liked_playlist matches Some(t) ==> verbatim(t)
    &&& s.media_cache_dir matches Some(t) ==> verbatim(t)
    &&& s.media_cache_move_from matches Some(t) ==> verbatim(t)
    &&& layout matches Some(t) ==> t.len() > 0 && t[0] == '['
}

/// The settings are what they were. Of sources none of which was switched nothing is said.
pub open spec fn given_back(r: SavedView, s: SavedView) -> bool {
    &&& r.vis_fps == s.vis_fps
    &&& r.status_line == s.status_line
    &&& r.show_hints == s.show_hints
    &&& r.auto_update == s.auto_update
    &&& r.waveform_enabled == s.waveform_enabled
    &&& r.liked_playlist == s.liked_playlist
    &&& r.media_cache_dir == s.media_cache_dir
    &&& r.media_cache_move_from == s.media_cache_move_from
    &&& r.scan_mode == s.scan_mode
    &&& any_source(s) ==> r.http == s.http && r.spotify == s.spotify && r.soundcloud == s.soundcloud && r.soulseek
        == s.soulseek
}

proof fn lemma_top_keys()
    ensures
        bare_key("volume"@) && "volume"@.len() == 6,
        bare_key("vis_fps"@) && "vis_fps"@.len() == 7,
        bare_key("status_line"@) && "status_line"@.len() == 11 && "status_line"@[0] == 's',
        bare_key("show_hints"@) && "show_hints"@.len() == 10,
        bare_key("auto_update"@) && "auto_update"@.len() == 11 && "auto_update"@[0] == 'a',
        bare_key("waveform_enabled"@) && "waveform_enabled"@.len() == 16,
        bare_key("liked_playlist"@) && "liked_playlist"@.len() == 14,
        bare_key("media_cache_dir"@) && "media_cache_dir"@.len() == 15,
        bare_key("media_cache_move_from"@) && "media_cache_move_from"@.len() == 21,
        bare_key("scan_mode"@) && "scan_mode"@.len() == 9,
{
    reveal_strlit("volume");
    reveal_strlit("vis_fps");
    reveal_strlit("status_line");
    reveal_strlit("show_hints");
    reveal_strlit("auto_update");
    reveal_strlit("waveform_enabled");
    reveal_strlit("liked_playlist");
    reveal_strlit("media_cache_dir");
    reveal_strlit("media_cache_move_from");
    reveal_strlit("scan_mode");
}

proof fn lemma_source_keys()
    ensures
        bare_key("sources"@),
        bare_key("http"@) && "http"@.len() == 4,
        bare_key("spotify"@) && "spotify"@.len() == 7,
        bare_key("soundcloud"@) && "soundcloud"@.len() == 10,
        bare_key("soulseek"@) && "soulseek"@.len() == 8,
{
    reveal_strlit("sources");
    reveal_strlit("http");
    reveal_strlit("spotify");
    reveal_strlit("soundcloud");
    reveal_strlit("soulseek");
}

/// What the lines at the top of a state say.
pub(crate) proof fn lemma_top_found(volume: Seq<char>, s: SavedView)
    ensures
        found(top_lines(volume, s), "vis_fps"@) == (match s.vis_fps {
            Some(n) => Some(Plain::Number(n)),
            None => None,
        }),
        found(top_lines(volume, s), "status_line"@) == flag_value(s.status_line),
        found(top_lines(volume, s), "show_hints"@) == flag_value(s.show_hints),
        found(top_lines(volume, s), "auto_update"@) == flag_value(s.auto_update),
        found(top_lines(volume, s), "waveform_enabled"@) == flag_value(s.waveform_enabled),
        found(top_lines(volume, s), "liked_playlist"@) == text_plain(s.liked_playlist),
        found(top_lines(volume, s), "media_cache_dir"@) == text_plain(s.media_cache_dir),
        found(top_lines(volume, s), "media_cache_move_from"@) == text_plain(s.media_cache_move_from),
        found(top_lines(volume, s), "scan_mode"@) == (match s.scan_mode {
            Some(m) => Some(Plain::Text(mode_name(m))),
            None => None,
        }),
        lines_text(top_lines(volume, s)) == "volume"@ + " = "@ + volume + "\n"@ + number_line("vis_fps"@, s.vis_fps)
            + flag_line("status_line"@, s.status_line) + flag_line("show_hints"@, s.show_hints) + flag_line(
            "auto_update"@,
            s.auto_update,
        ) + flag_line("waveform_enabled"@, s.waveform_enabled) + line_text("liked_playlist"@, text_plain(s.liked_playlist))
            + line_text("media_cache_dir"@, text_plain(s.media_cache_dir)) + line_text(
            "media_cache_move_from"@,
            text_plain(s.media_cache_move_from),
        ) + line_text("scan_mode"@, (match s.scan_mode {
            Some(m) => Some(Plain::Text(mode_name(m))),
            None => None,
        })),
        keepable(volume, s, None) ==> plain_lines(top_lines(volume, s)),
{
    lemma_top_keys();
    lemma_mode_verbatim();
    let fps = match s.vis_fps {
        Some(n) => Some(Plain::Number(n)),
        None => None,
    };
    let mode = match s.scan_mode {
        Some(m) => Some(Plain::Text(mode_name(m))),
        None => None,
    };
    let l0: Seq<(Seq<char>, Plain)> = seq![];
    lemma_with_line(l0, "volume"@, Some(Plain::Bare(volume)));
    let l1 = with_line(l0, "volume"@, Some(Plain::Bare(volume)));
    lemma_with_line(l1, "vis_fps"@, fps);
    let l2 = with_line(l1, "vis_fps"@, fps);
    lemma_with_line(l2, "status_line"@, flag_value(s.status_line));
    let l3 = with_line(l2, "status_line"@, flag_value(s.status_line));
    lemma_with_line(l3, "show_hints"@, flag_value(s.show_hints));
    let l4 = with_line(l3, "show_hints"@, flag_value(s.show_hints));
    lemma_with_line(l4, "auto_update"@, flag_value(s.auto_update));
    let l5 = with_line(l4, "auto_update"@, flag_value(s.auto_update));
    lemma_with_line(l5, "waveform_enabled"@, flag_value(s.waveform_enabled));
    let l6 = with_line(l5, "waveform_enabled"@, flag_value(s.waveform_enabled));
    lemma_with_line(l6, "liked_playlist"@, text_plain(s.liked_playlist));
    let l7 = with_line(l6, "liked_playlist"@, text_plain(s.liked_playlist));
    lemma_with_line(l7, "media_cache_dir"@, text_plain(s.media_cache_dir));
    let l8 = with_line(l7, "media_cache_dir"@, text_plain(s.media_cache_dir));
    lemma_with_line(l8, "media_cache_move_from"@, text_plain(s.media_cache_move_from));
    let l9 = with_line(l8, "media_cache_move_from"@, text_plain(s.media_cache_move_from));
    lemma_with_line(l9, "scan_mode"@, mode);
    assert(lines_text(l0) + line_text("volume"@, Some(Plain::Bare(volume))) =~= "volume"@ + " = "@ + volume + "\n"@);
    assert(line_text("vis_fps"@, fps) == number_line("vis_fps"@, s.vis_fps));
    assert(line_text("status_line"@, flag_value(s.status_line)) == flag_line("status_line"@, s.status_line));
    assert(line_text("show_hints"@, flag_value(s.show_hints)) == flag_line("show_hints"@, s.show_hints));
    assert(line_text("auto_update"@, flag_value(s.auto_update)) == flag_line("auto_update"@, s.auto_update));
    assert(line_text("waveform_enabled"@, flag_value(s.waveform_enabled)) == flag_line(
        "waveform_enabled"@,
        s.waveform_enabled,
    ));
}

/// What the lines of the switched sources say.
pub(crate) proof fn lemma_sources_found(s: SavedView)
    ensures
        found(source_lines(s), "http"@) == flag_value(s.http),
        found(source_lines(s), "spotify"@) == flag_value(s.spotify),
        found(source_lines(s), "soundcloud"@) == flag_value(s.soundcloud),
        found(source_lines(s), "soulseek"@) == flag_value(s.soulseek),
        lines_text(source_lines(s)) == flag_line("http"@, s.http) + flag_line("spotify"@, s.spotify) + flag_line(
            "soundcloud"@,
            s.soundcloud,
        ) + flag_line("soulseek"@, s.soulseek),
        plain_lines(source_lines(s)),
{
    lemma_source_keys();
    let l0: Seq<(Seq<char>, Plain)> = seq![];
    lemma_with_line(l0, "http"@, flag_value(s.http));
    let l1 = with_line(l0, "http"@, flag_value(s.http));
    lemma_with_line(l1, "spotify"@, flag_value(s.spotify));
    let l2 = with_line(l1, "spotify"@, flag_value(s.spotify));
    lemma_with_line(l2, "soundcloud"@, flag_value(s.soundcloud));
    let l3 = with_line(l2, "soundcloud"@, flag_value(s.soundcloud));
    lemma_with_line(l3, "soulseek"@, flag_value(s.soulseek));
    assert(lines_text(l0) + line_text("http"@, flag_value(s.http)) =~= flag_line("http"@, s.http));
}

fn append_number_line(out: &mut Vec<char>, key: &str, v: Option<u32>)
    ensures
        final(out)@ == old(out)@ + number_line(key@, v),
{
    if let Some(n) = v {
        append_str(out, key);
        append_str(out, " = ");
        append_decimal(out, n as u64);
        append_str(out, "\n");
    }
    assert(out@ =~= old(out)@ + number_line(key@, v));
}

fn append_flag_line(out: &mut Vec<char>, key: &str, v: Option<bool>)
    ensures
        final(out)@ == old(out)@ + flag_line(key@, v),
{
    if let Some(b) = v {
        append_str(out, key);
        append_str(out, " = ");
        if b {
            append_str(out, "true");
        } else {
            append_str(out, "false");
        }
        append_str(out, "\n");
    }
    assert(out@ =~= old(out)@ + flag_line(key@, v));
}

fn append_text_line(out: &mut Vec<char>, key: &str, v: &Option<String>)
    requires
        v matches Some(p) ==> quotable(p@),
    ensures
        final(out)@ == old(out)@ + text_line(key@, opt_text(*v)),
        (opt_text(*v) matches Some(p) ==> verbatim(p)) ==> text_line(key@, opt_text(*v)) == line_text(
            key@,
            text_plain(opt_text(*v)),
        ),
{
    if let Some(p) = v {
        append_str(out, key);
        append_str(out, " = ");
        append_str(out, &quoted_value(p));
        append_str(out, "\n");
    }
    assert(out@ =~= old(out)@ + text_line(key@, opt_text(*v)));
}

fn append_table(out: &mut Vec<char>, table: &Option<String>)
    ensures
        final(out)@ == old(out)@ + table_part(opt_str(*table)),
{
    if let Some(t) = table {
        append_str(out, "\n");
        append_str(out, t);
    }
    assert(out@ =~= old(out)@ + table_part(opt_str(*table)));
}

/// The top of a state is its lines.
proof fn lemma_top_text(volume: Seq<char>, s: SavedView)
    requires
        text_line("liked_playlist"@, s.liked_playlist) == line_text("liked_playlist"@, text_plain(s.liked_playlist)),
        text_line("media_cache_dir"@, s.media_cache_dir) == line_text("media_cache_dir"@, text_plain(s.media_cache_dir)),
        text_line("media_cache_move_from"@, s.media_cache_move_from) == line_text(
            "media_cache_move_from"@,
            text_plain(s.media_cache_move_from),
        ),
    ensures
        top_part(volume, s) == lines_text(top_lines(volume, s)),
{
    lemma_top_found(volume, s);
    assert("volume = "@ =~= "volume"@ + " = "@) by {
        reveal_strlit("volume = ");
        reveal_strlit("volume");
        reveal_strlit(" = ");
    }
    if let Some(m) = s.scan_mode {
        assert("scan_mode = \""@ =~= "scan_mode"@ + " = "@ + seq!['"']) by {
            reveal_strlit("scan_mode = \"");
            reveal_strlit("scan_mode");
            reveal_strlit(" = ");
        }
        assert("\"\n"@ =~= seq!['"'] + "\n"@) by {
            reveal_strlit("\"\n");
            reveal_strlit("\n");
        }
        assert(mode_line(s.scan_mode) =~= line_text("scan_mode"@, Some(Plain::Text(mode_name(m)))));
    }
}

fn top_text(volume: &str, s: &Saved) -> (out: Vec<char>)
    requires
        s.liked_playlist matches Some(p) ==> quotable(p@),
        s.media_cache_dir matches Some(p) ==> quotable(p@),
        s.media_cache_move_from matches Some(p) ==> quotable(p@),
    ensures
        out@ == top_part(volume@, s@),
        keepable(volume@, s@, None) ==> out@ == lines_text(top_lines(volume@, s@)),
{
    let mut out: Vec<char> = Vec::new();
    append_str(&mut out, "volume = ");
    append_str(&mut out, volume);
    append_str(&mut out, "\n");
    append_number_line(&mut out, "vis_fps", s.vis_fps);
    append_flag_line(&mut out, "status_line", s.status_line);
    append_flag_line(&mut out, "show_hints", s.show_hints);
    append_flag_line(&mut out, "auto_update", s.auto_update);
    append_flag_line(&mut out, "waveform_enabled", s.waveform_enabled);
    append_text_line(&mut out, "liked_playlist", &s.liked_playlist);
    append_text_line(&mut out, "media_cache_dir", &s.media_cache_dir);
    append_text_line(&mut out, "media_cache_move_from", &s.media_cache_move_from);
    if let Some(m) = s.scan_mode {
        append_str(&mut out, "scan_mode = \"");
        append_str(&mut out, m.name());
        append_str(&mut out, "\"\n");
    }
    assert(out@ =~= top_part(volume@, s@));
    proof {
        if keepable(volume@, s@, None) {
            lemma_top_text(volume@, s@);
        }
    }
    out
}

fn append_sources(out: &mut Vec<char>, s: &Saved)
    ensures
        final(out)@ == old(out)@ + sources_part(s@),
{
    if s.http.is_some() || s.spotify.is_some() || s.soundcloud.is_some() || s.soulseek.is_some() {
        append_str(out, "\n[sources]\n");
        append_flag_line(out, "http", s.http);
        append_flag_line(out, "spotify", s.spotify);
        append_flag_line(out, "soundcloud", s.soundcloud);
        append_flag_line(out, "soulseek", s.soulseek);
    }
    assert(out@ =~= old(out)@ + sources_part(s@));
}

pub open spec fn opt_last(l: Option<LastPlayed>) -> Option<LastView> {
    match l {
        Some(l) => Some(last_view(l)),
        None => None,
    }
}

/// A table below what is above it is a table, or nothing.
proof fn lemma_below(a: Seq<char>, b: Seq<char>)
    requires
        tables_only(a),
        tables_only(b),
    ensures
        tables_only(a + b),
{
    if a.len() == 0 {
        assert(a + b =~= b);
    }
}

proof fn lemma_table_part(t: Option<Seq<char>>)
    requires
        t matches Some(t) ==> t.len() > 0 && t[0] == '[',
    ensures
        tables_only(table_part(t)),
{
    reveal_strlit("\n");
}

/// Lines with tables below them.
proof fn lemma_top_of(lines: Seq<(Seq<char>, Plain)>, a: Seq<char>, b: Seq<char>, c: Seq<char>, d: Seq<char>)
    requires
        plain_lines(lines),
        tables_only(a),
        tables_only(b),
        tables_only(c),
        tables_only(d),
    ensures
        top_of(lines_text(lines) + a + b + c + d, lines),
{
    lemma_below(c, d);
    lemma_below(b, c + d);
    lemma_below(a, b + (c + d));
    assert(lines_text(lines) + a + b + c + d =~= lines_text(lines) + (a + (b + (c + d))));
}

/// A table of lines between other tables.
proof fn lemma_table_of(
    lines: Seq<(Seq<char>, Plain)>,
    a: Seq<char>,
    name: Seq<char>,
    b: Seq<(Seq<char>, Plain)>,
    c: Seq<char>,
    d: Seq<char>,
)
    requires
        plain_lines(lines),
        a.len() == 0 || written_table(a),
        bare_key(name),
        plain_lines(b),
        tables_only(c),
        tables_only(d),
    ensures
        table_of_lines(lines_text(lines) + a + ("\n["@ + name + "]\n"@ + lines_text(b)) + c + d, name, b),
{
    let before = lines_text(lines) + a;
    let none: Seq<char> = seq![];
    assert(before =~= lines_text(lines) + a + none + none);
    assert(closed_text(before));
    lemma_below(c, d);
    assert(before + ("\n["@ + name + "]\n"@ + lines_text(b)) + c + d =~= before + "\n["@ + name + "]\n"@ + lines_text(b)
        + (c + d));
}

/// The table of the switched sources.
proof fn lemma_sources_part(s: SavedView)
    ensures
        tables_only(sources_part(s)),
        any_source(s) ==> sources_part(s) == "\n["@ + "sources"@ + "]\n"@ + lines_text(source_lines(s)),
{
    lemma_sources_found(s);
    reveal_strlit("\n[sources]\n");
    reveal_strlit("\n[");
    reveal_strlit("]\n");
    reveal_strlit("sources");
    assert("\n[sources]\n"@ =~= "\n["@ + "sources"@ + "]\n"@);
    if any_source(s) {
        assert(sources_part(s) =~= "\n[sources]\n"@ + lines_text(source_lines(s)));
    }
}

/// The table of the bound keys.
proof fn lemma_keys_part(keys: Seq<(char, HotkeyView)>)
    requires
        keys.len() > 0 ==> (toml_table("hotkeys"@, binding_pairs(keys)) matches Some(t) ==> t.len() > 0 && t[0] == '['),
        forall|i: int| 0 <= i < keys.len() ==> quotable(target_text((#[trigger] keys[i]).1)),
    ensures
        tables_only(keys_part(keys)),
        keys_part(keys).len() == 0 || written_table(keys_part(keys)),
{
    let pairs = binding_pairs(keys);
    assert forall|i: int| 0 <= i < pairs.len() implies quotable((#[trigger] pairs[i]).1) by {
        assert(quotable(target_text(keys[i].1)));
    }
    if keys.len() > 0 {
        lemma_table_part(toml_table("hotkeys"@, pairs));
    }
}

/// The lines of a state stand in it as they are.
proof fn lemma_keeps(
    volume: Seq<char>,
    s: SavedView,
    keys: Seq<(char, HotkeyView)>,
    layout: Option<Seq<char>>,
    last: Option<LastView>,
)
    requires
        keepable(volume, s, layout),
        top_part(volume, s) == lines_text(top_lines(volume, s)),
        keys.len() > 0 ==> (toml_table("hotkeys"@, binding_pairs(keys)) matches Some(t) ==> t.len() > 0 && t[0] == '['),
        forall|i: int| 0 <= i < keys.len() ==> quotable(target_text((#[trigger] keys[i]).1)),
        last matches Some(l) ==> (toml_table("last_played"@, last_pairs(l)) matches Some(t) ==> t.len() > 0 && t[0] == '['),
    ensures
        keeps(state_text(volume, s, keys, layout, last), volume, s),
{
    assert(plain_lines(top_lines(volume, s))) by {
        lemma_top_found(volume, s);
    }
    assert(plain_lines(source_lines(s)) && bare_key("sources"@)) by {
        lemma_sources_found(s);
        lemma_source_keys();
    }
    lemma_keys_part(keys);
    lemma_sources_part(s);
    lemma_table_part(layout);
    if last is Some {
        lemma_table_part(toml_table("last_played"@, last_pairs(last->0)));
    }
    lemma_top_of(top_lines(volume, s), keys_part(keys), sources_part(s), table_part(layout), last_part(last));
    if any_source(s) {
        lemma_table_of(
            top_lines(volume, s),
            keys_part(keys),
            "sources"@,
            source_lines(s),
            table_part(layout),
            last_part(last),
        );
    }
}

/// Bound keys that need no escapes, each once.
pub open spec fn keepable_keys(keys: Seq<(char, HotkeyView)>) -> bool {
    &&& keys.len() > 0
    &&& verbatim_pairs(binding_pairs(keys))
    &&& forall|i: int| 0 <= i < keys.len() ==> storable_target((#[trigger] keys[i]).1)
    &&& forall|i: int, j: int| 0 <= i < j < keys.len() ==> (#[trigger] keys[i]).0 != (#[trigger] keys[j]).0
}

/// A layout in the form that `toml` writes a table in: it starts with a bracket, ends with a line,
/// and can be read. Or none.
pub open spec fn whole_layout(layout: Option<Seq<char>>) -> bool {
    layout matches Some(t) ==> t.len() >= 2 && t[0] == '[' && t.last() == '\n' && readable(t)
}

/// A last track with a playlist that needs no escapes, or with none.
pub open spec fn keepable_last(l: LastView) -> bool {
    verbatim_pairs(last_pairs(l)) && (l.playlist matches Some(t) ==> storable_target(t))
}

/// A table that `toml` wrote, between other tables.
proof fn lemma_texts_of(
    lines: Seq<(Seq<char>, Plain)>,
    a: Seq<char>,
    b: Seq<char>,
    c: Seq<char>,
    name: Seq<char>,
    pairs: Seq<(Seq<char>, Seq<char>)>,
    rest: Seq<char>,
)
    requires
        plain_lines(lines),
        a.len() == 0 || written_table(a),
        b.len() == 0 || lined_table(b),
        c.len() == 0 || whole_tables(c),
        bare_key(name),
        verbatim_pairs(pairs),
        toml_table(name, pairs) is Some,
        tables_only(rest),
    ensures
        table_of_texts(lines_text(lines) + a + b + c + table_part(toml_table(name, pairs)) + rest, name, pairs),
{
    let before = lines_text(lines) + a + b + c;
    assert(closed_text(before));
    assert(before + table_part(toml_table(name, pairs)) + rest =~= before + "\n"@ + toml_table(name, pairs)->0 + rest);
}

/// A layout that can be read by itself is a table below what is above it.
proof fn lemma_whole_layout(layout: Option<Seq<char>>)
    requires
        whole_layout(layout),
    ensures
        table_part(layout).len() == 0 || whole_tables(table_part(layout)),
{
    if let Some(t) = layout {
        reveal_strlit("\n");
        let p = table_part(layout);
        assert(p.skip(1) =~= t);
        assert(p.last() == t.last());
    }
}

/// The tables of a state stand in it as they were written.
proof fn lemma_keeps_tables(
    volume: Seq<char>,
    s: SavedView,
    keys: Seq<(char, HotkeyView)>,
    layout: Option<Seq<char>>,
    last: Option<LastView>,
)
    requires
        keepable(volume, s, layout),
        top_part(volume, s) == lines_text(top_lines(volume, s)),
        keys.len() > 0 ==> toml_table("hotkeys"@, binding_pairs(keys)) is Some && toml_table(
            "hotkeys"@,
            binding_pairs(keys),
        )->0.len() > 0 && toml_table("hotkeys"@, binding_pairs(keys))->0[0] == '[',
        forall|i: int| 0 <= i < keys.len() ==> quotable(target_text((#[trigger] keys[i]).1)),
        last matches Some(l) ==> toml_table("last_played"@, last_pairs(l)) is Some && toml_table(
            "last_played"@,
            last_pairs(l),
        )->0.len() > 0 && toml_table("last_played"@, last_pairs(l))->0[0] == '[',
    ensures
        keepable_keys(keys) ==> keeps_keys(state_text(volume, s, keys, layout, last), keys),
        last matches Some(l) ==> whole_layout(layout) && keepable_last(l) ==> keeps_last(
            state_text(volume, s, keys, layout, last),
            l,
        ),
{
    let lines = top_lines(volume, s);
    assert(plain_lines(lines)) by {
        lemma_top_found(volume, s);
    }
    lemma_keys_part(keys);
    lemma_sources_part(s);
    lemma_table_part(layout);
    assert(bare_key("hotkeys"@)) by {
        reveal_strlit("hotkeys");
    }
    assert(bare_key("last_played"@)) by {
        reveal_strlit("last_played");
    }
    if last is Some {
        lemma_table_part(toml_table("last_played"@, last_pairs(last->0)));
    }
    if keepable_keys(keys) {
        let rest = sources_part(s) + (table_part(layout) + last_part(last));
        lemma_below(table_part(layout), last_part(last));
        lemma_below(sources_part(s), table_part(layout) + last_part(last));
        let none: Seq<char> = seq![];
        lemma_texts_of(lines, none, none, none, "hotkeys"@, binding_pairs(keys), rest);
        assert(state_text(volume, s, keys, layout, last) =~= lines_text(lines) + none + none + none + keys_part(keys) + rest);
    }
    if let Some(l) = last {
        if whole_layout(layout) && keepable_last(l) {
            lemma_whole_layout(layout);
            if any_source(s) {
                assert(lined_table(sources_part(s))) by {
                    lemma_sources_found(s);
                    lemma_source_keys();
                }
            }
            lemma_texts_of(
                lines,
                keys_part(keys),
                sources_part(s),
                table_part(layout),
                "last_played"@,
                last_pairs(l),
                seq![],
            );
            assert(state_text(volume, s, keys, layout, last) =~= lines_text(lines) + keys_part(keys) + sources_part(s)
                + table_part(layout) + last_part(last) + seq![]);
        }
    }
}

/// The text of a state. `volume` is the volume and `layout` the table of the layout, as the
/// document writes them. What needs no escapes stands in it so that it is given back: settings by
/// `read_saved`, bound keys by `read_hotkeys` and, where the layout can be read by itself, what
/// played last by `read_last_played`.
pub fn save_state(
    volume: &str,
    s: &Saved,
    keys: &Vec<(char, HotkeyTarget)>,
    layout: &Option<String>,
    last: &Option<LastPlayed>,
) -> (r: String)
    requires
        s.liked_playlist matches Some(p) ==> quotable(p@),
        s.media_cache_dir matches Some(p) ==> quotable(p@),
        s.media_cache_move_from matches Some(p) ==> quotable(p@),
        forall|i: int| 0 <= i < keys@.len() ==> quotable(target_text(#[trigger] keys@[i].1@)),
        last matches Some(l) ==> (l.playlist matches Some(t) ==> quotable(target_text(t@))),
    ensures
        r@ == state_text(volume@, s@, binding_views(keys@), opt_str(*layout), opt_last(*last)),
        keepable(volume@, s@, opt_str(*layout)) ==> keeps(r@, volume@, s@),
        keepable(volume@, s@, opt_str(*layout)) && keepable_keys(binding_views(keys@)) ==> keeps_keys(
            r@,
            binding_views(keys@),
        ),
        opt_last(*last) matches Some(l) ==> keepable(volume@, s@, opt_str(*layout)) && whole_layout(opt_str(*layout))
            && keepable_last(l) ==> keeps_last(r@, l),
{
    let mut out = top_text(volume, s);
    if keys.len() > 0 {
        let pairs = pairs_of_bindings(keys);
        assert forall|i: int| 0 <= i < pairs@.len() implies quotable(#[trigger] pairs@[i].1@) by {
            assert(quotable(target_text(keys@[i].1@)));
        }
        let table = table_text("hotkeys", &pairs);
        append_table(&mut out, &table);
    }
    assert(out@ =~= top_part(volume@, s@) + keys_part(binding_views(keys@)));
    append_sources(&mut out, s);
    append_table(&mut out, layout);
    if let Some(l) = last {
        let pairs = pairs_of_last(l);
        proof {
            lemma_last_quotable(last_view(*l));
            assert forall|i: int| 0 <= i < pairs@.len() implies quotable(#[trigger] pairs@[i].1@) by {
                assert(quotable(last_pairs(last_view(*l))[i].1));
            }
        }
        let table = table_text("last_played", &pairs);
        append_table(&mut out, &table);
    }
    assert(out@ =~= state_text(volume@, s@, binding_views(keys@), opt_str(*layout), opt_last(*last)));
    proof {
        if keepable(volume@, s@, opt_str(*layout)) {
            assert forall|i: int| 0 <= i < binding_views(keys@).len() implies quotable(
                target_text((#[trigger] binding_views(keys@)[i]).1),
            ) by {
                assert(quotable(target_text(keys@[i].1@)));
            }
            lemma_keeps(volume@, s@, binding_views(keys@), opt_str(*layout), opt_last(*last));
            lemma_keeps_tables(volume@, s@, binding_views(keys@), opt_str(*layout), opt_last(*last));
        }
    }
    string_of(&out)
}

} // verus!
