//! The log of plays: a playlist file that grows by one entry with each play.

use vstd::prelude::*;
use crate::exchange::{build_entry, entry_of};
use crate::m3u_laws::{m3u_round_trip, storable_entry, storable_header};
use crate::moment::Moment;
use crate::playlist_m3u::{
    doc_lines, doc_of_lines, entries_lines, entry_lines, entry_readable, header_lines, lemma_unlines_concat, m3u_parsed,
    parse_m3u_at, unlines, write_entry, write_header, DocView, EntryView, MetaView, PlaylistMeta,
};
use crate::text::{lemma_split_single, lemma_trim_same};
use crate::types::{opt_text, Track, TrackId, TrackView};

verus! {

/// The header of the log.
pub open spec fn history_header() -> MetaView {
    MetaView { id: None, name: "__history__"@, notes: ""@ }
}

/// The entry of a play.
pub open spec fn play_entry(t: TrackView, at: Moment, primary: Seq<char>, tempo: Option<Seq<char>>) -> EntryView {
    EntryView { played_at: Some(at), ..entry_of(t, primary, tempo) }
}

/// What is added to the log for a play; a log that is not there yet starts with its header.
pub open spec fn play_text(e: EntryView, new_log: bool) -> Seq<char> {
    (if new_log {
        unlines(header_lines(history_header()))
    } else {
        seq![]
    }) + unlines(entry_lines(e))
}

/// What is added to the log for the play of a track at a time. `primary` is the line that any
/// player plays, `tempo` the track's tempo as it is written.
pub fn history_record(t: &Track, at: Moment, primary: String, tempo: Option<String>, new_log: bool) -> (r: String)
    ensures
        r@ == play_text(play_entry(t@, at, primary@, opt_text(tempo)), new_log),
        entry_readable(play_entry(t@, at, primary@, opt_text(tempo))),
{
    let mut e = build_entry(t, primary, tempo);
    e.played_at = Some(at);
    assert(e@ == play_entry(t@, at, primary@, opt_text(tempo)));
    let mut text = "".to_owned();
    proof {
        reveal_strlit("");
    }
    if new_log {
        text = write_header(&PlaylistMeta { id: None, name: "__history__".to_owned(), notes: "".to_owned() });
    }
    text.append(&write_entry(&e));
    assert(text@ =~= play_text(e@, new_log));
    text
}

/// The plays that entries tell of: an entry without a track tells of none, one without a time
/// counts as played now.
pub open spec fn plays_of(v: Seq<EntryView>, now: Moment) -> Seq<(TrackId, Moment)>
    decreases v.len(),
{
    if v.len() == 0 {
        seq![]
    } else {
        let head = plays_of(v.drop_last(), now);
        match v.last().track_id {
            Some(id) => head.push(
                (
                    TrackId(id),
                    match v.last().played_at {
                        Some(at) => at,
                        None => now,
                    },
                ),
            ),
            None => head,
        }
    }
}

/// The plays of a log, in its order; a text that is no log tells of none.
pub open spec fn logged_plays(text: Seq<char>, now: Moment) -> Seq<(TrackId, Moment)> {
    match m3u_parsed(text, now) {
        Some(d) => plays_of(d.entries, now),
        None => seq![],
    }
}

/// Reads the log of plays at the time `now`.
pub fn load_history(text: &str, now: Moment) -> (r: Vec<(TrackId, Moment)>)
    ensures
        r@ == logged_plays(text@, now),
{
    let mut out: Vec<(TrackId, Moment)> = Vec::new();
    match parse_m3u_at(text, now) {
        Ok(doc) => {
            let ghost v = doc@.entries;
            let mut i: usize = 0;
            assert(v.take(0) =~= seq![]);
            while i < doc.entries.len()
                invariant
                    i <= doc.entries@.len(),
                    v == doc@.entries,
                    out@ == plays_of(v.take(i as int), now),
                decreases doc.entries@.len() - i,
            {
                proof {
                    assert(v.take(i + 1).drop_last() =~= v.take(i as int));
                    assert(v[i as int] == doc.entries@[i as int]@);
                }
                if let Some(id) = doc.entries[i].track_id {
                    let at = match doc.entries[i].played_at {
                        Some(at) => at,
                        None => now,
                    };
                    out.push((TrackId(id), at));
                }
                i = i + 1;
            }
            assert(v.take(i as int) =~= v);
        },
        Err(_) => {},
    }
    out
}

/// A log after plays, one after the other.
pub open spec fn log_of(v: Seq<EntryView>) -> Seq<char>
    decreases v.len(),
{
    if v.len() == 0 {
        seq![]
    } else {
        log_of(v.drop_last()) + play_text(v.last(), v.len() == 1)
    }
}

proof fn lemma_log(v: Seq<EntryView>)
    requires
        v.len() > 0,
    ensures
        log_of(v) == unlines(doc_lines(DocView { playlist: history_header(), entries: v })),
    decreases v.len(),
{
    let h = header_lines(history_header());
    let rest = v.drop_last();
    let e = entry_lines(v.last());
    if v.len() == 1 {
        assert(log_of(rest) =~= Seq::<char>::empty());
        assert(entries_lines(rest) =~= Seq::<Seq<char>>::empty());
        lemma_unlines_concat(h, e);
        assert(h + entries_lines(v) =~= h + e);
        assert(log_of(v) =~= unlines(h) + unlines(e));
    } else {
        lemma_log(rest);
        lemma_unlines_concat(h + entries_lines(rest), e);
        assert(h + entries_lines(v) =~= h + entries_lines(rest) + e);
        assert(log_of(v) =~= log_of(rest) + unlines(e));
    }
}

proof fn lemma_plays(v: Seq<EntryView>, now: Moment)
    requires
        forall|i: int| 0 <= i < v.len() ==> (#[trigger] v[i]).track_id is Some && v[i].played_at is Some,
    ensures
        plays_of(v, now) == v.map_values(|e: EntryView| (TrackId(e.track_id->0), e.played_at->0)),
    decreases v.len(),
{
    let f = |e: EntryView| (TrackId(e.track_id->0), e.played_at->0);
    if v.len() > 0 {
        lemma_plays(v.drop_last(), now);
        assert(v.map_values(f) =~= v.drop_last().map_values(f).push(f(v.last())));
    } else {
        assert(v.map_values(f) =~= seq![]);
    }
}

/// What is logged of plays reads back as the plays, whenever it is read, if a file can hold the
/// entries.
pub proof fn logged_plays_read_back(v: Seq<EntryView>, now: Moment)
    requires
        forall|i: int|
            0 <= i < v.len() ==> (#[trigger] v[i]).track_id is Some && v[i].played_at is Some && storable_entry(v[i])
                && entry_readable(v[i]),
    ensures
        logged_plays(log_of(v), now) == v.map_values(|e: EntryView| (TrackId(e.track_id->0), e.played_at->0)),
{
    if v.len() > 0 {
        let d = DocView { playlist: history_header(), entries: v };
        lemma_log(v);
        reveal_strlit("__history__");
        reveal_strlit("");
        crate::pct::pct_encoded_is_one_field(""@);
        assert(storable_header(d.playlist));
        m3u_round_trip(d, now);
        lemma_plays(v, now);
    } else {
        let ls = seq![Seq::<char>::empty()];
        lemma_split_single(Seq::<char>::empty(), '\n');
        assert(log_of(v) =~= Seq::<char>::empty());
        lemma_trim_same(Seq::<char>::empty());
        assert(ls.drop_first() =~= seq![]);
        assert(doc_of_lines(ls.drop_first(), now) is None);
        assert(doc_of_lines(ls, now) is None);
        lemma_plays(v, now);
    }
}

} // verus!
