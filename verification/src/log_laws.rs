//! What is written down and what is told: messages, warnings, plugin commands, searches and the
//! desktop's media keys.

use vstd::prelude::*;
use crate::catalog::Catalog;
use crate::command::Command;
use crate::enqueue::{PendingEnqueue, ENQUEUE_CAP};
use crate::event::{Bus, CoreEvent};
use crate::logbuf::LogBuf;
use crate::logging::{level_resolved, log_line, once_only, passed, rank_of, Level, LogGate};
use crate::media_keys::{metadata, pause_command, play_command, seek_command, set_position_delta_ms, TrackCard};
use crate::plugin::{PluginCommand, SetupPrompt};
use crate::plugin_commands::PluginCommands;
use crate::queue::Queue;
use crate::search::{collections_wanted, Search};
use crate::text::{ascii_lower_of, trim_of};
use crate::title::{TitleBody, WindowTitle, MAX_WIDTH};
use crate::traits::PlayerState;
use crate::types::{ItemKind, SearchQuery, SourceId, Track, TrackId};

verus! {

/// A line that is pushed is the last one; the others stay in front of it, and only where the
/// buffer is full the oldest goes.
pub proof fn the_oldest_line_goes(b: &mut LogBuf, line: String)
    requires
        call_ensures(LogBuf::push, (b, line), ()),
        old(b).capacity() >= 1,
        old(b)@.len() <= old(b).capacity(),
    ensures
        final(b)@.len() > 0 && final(b)@.last() == line@,
        old(b)@.len() < old(b).capacity() ==> final(b)@ == old(b)@.push(line@),
        old(b)@.len() == old(b).capacity() ==> final(b)@ == old(b)@.skip(1).push(line@),
        old(b).count() < u64::MAX ==> final(b).count() == old(b).count() + 1,
{
    if old(b)@.len() == old(b).capacity() {
        assert(final(b)@ =~= old(b)@.skip(1).push(line@));
    }
}

/// The tail of the buffer is its newest lines, as many as were asked for or there are, and in
/// their order.
pub proof fn tails_are_the_newest_lines(b: &LogBuf, n: usize, r: Vec<String>, i: int)
    requires
        call_ensures(LogBuf::tail, (b, n), r),
        0 <= i < r@.len(),
    ensures
        r@.len() <= n || n > b@.len(),
        r@.len() == n || r@.len() == b@.len(),
        r@.len() <= b@.len(),
        r@[i]@ == b@[b@.len() - r@.len() + i],
{
    assert(crate::text::str_views(r@)[i] == r@[i]@);
    assert(crate::text::str_views(r@).len() == r@.len());
}

/// What is less weighty than the level is not written; an error is, at every level but "off".
pub proof fn levels_hold_back(g: LogGate, target: Seq<char>, message: Seq<char>)
    ensures
        g.level == Level::Off ==> !passed(g, Level::Error, target, message).1,
        g.level != Level::Off ==> passed(g, Level::Error, target, message).1,
        g.level == Level::Error ==> !passed(g, Level::Warn, target, message).1,
        g.level == Level::Info ==> passed(g, Level::Info, target, message).1,
        g.level == Level::Info ==> !passed(g, Level::Debug, target, message).1,
        g.level == Level::Debug ==> passed(g, Level::Debug, target, message).1,
        g.level == Level::Debug ==> !passed(g, Level::Trace, target, message).1,
{
}

/// A warning that is of use only once is written once; a flood's first warning is written.
pub proof fn warnings_are_written_once(g: LogGate, target: Seq<char>, message: Seq<char>, other: Seq<char>)
    requires
        rank_of(g.level) >= 2,
        once_only(target, message),
        g.burst is None,
    ensures
        ({
            let (g1, first, _) = passed(g, Level::Warn, target, message);
            &&& first == !g.once_seen
            &&& !passed(g1, Level::Warn, target, message).1
            &&& passed(g, Level::Info, target, message).1 == (rank_of(g.level) >= 3)
            &&& crate::logging::noise_of(other) is Some && !once_only(other, message) ==> passed(
                g,
                Level::Warn,
                other,
                message,
            ).1
        }),
{
}

/// The level on the command line goes before that of the environment, which goes before the
/// usual one. Case and blanks around its name do not matter.
pub proof fn the_command_line_sets_the_level(args: Seq<Seq<char>>, name: Seq<char>, env: Option<Seq<char>>)
    requires
        args.len() >= 2,
        args[0] == "--log-level"@,
        args[1] == name,
    ensures
        ascii_lower_of(trim_of(name)) == "debug"@ ==> level_resolved(args, env) == Level::Debug,
        ascii_lower_of(trim_of(name)) == "error"@ ==> level_resolved(args, env) == Level::Error,
        level_resolved(Seq::empty(), None) == Level::Info,
        ascii_lower_of(trim_of(name)) == "debug"@ ==> level_resolved(Seq::empty(), Some(name)) == Level::Debug,
        ascii_lower_of(trim_of(name)) == "trace"@ ==> level_resolved(Seq::empty(), Some(name)) == Level::Trace,
{
    reveal_strlit("off");
    reveal_strlit("error");
    reveal_strlit("warn");
    reveal_strlit("info");
    reveal_strlit("debug");
    reveal_strlit("trace");
    assert("debug"@[0] == 'd' && "error"@[0] == 'e' && "trace"@[0] == 't' && "off"@[0] == 'o' && "warn"@[0] == 'w'
        && "info"@[0] == 'i');
}

/// A line in the log begins with the time, ends in the message, and names its level between them.
pub proof fn log_lines_hold_time_and_message(time: &str, message: &str, r: String)
    requires
        call_ensures(log_line, (time, Level::Error, message), r),
    ensures
        r@.len() == time@.len() + message@.len() + 7,
        r@.take(time@.len() as int) == time@,
        r@.skip(r@.len() - message@.len()) == message@,
        r@.subrange(time@.len() as int + 1, time@.len() as int + 6) == seq!['E', 'R', 'R', 'O', 'R'],
{
    reveal_strlit(" ");
    reveal_strlit("ERROR");
    assert(r@.take(time@.len() as int) =~= time@);
    assert(r@.skip(r@.len() - message@.len()) =~= message@);
    assert(r@.subrange(time@.len() as int + 1, time@.len() as int + 6) =~= seq!['E', 'R', 'R', 'O', 'R']);
}

/// A word that a plugin brought leads to that plugin, and its help is listed.
pub proof fn registered_words_are_answered(c: &mut PluginCommands, plugin: SourceId, command: PluginCommand, after: &PluginCommands, word: &str, r: Option<SourceId>)
    requires
        call_ensures(PluginCommands::register, (c, plugin, command), ()),
        *after == *final(c),
        call_ensures(PluginCommands::plugin_for_command, (after, word), r),
    ensures
        word@ == command.word@ ==> (r matches Some(id) && id@ == plugin@),
        after@.len() == old(c)@.len() + 1,
        after@.last().help == command.help@,
{
}

/// An empty answer to a question of a setup is its default, any other is taken as it is.
pub proof fn empty_answers_are_the_default(p: &SetupPrompt, given: String, r: String)
    requires
        call_ensures(SetupPrompt::answer, (p, given), r),
    ensures
        given@.len() > 0 ==> r@ == given@,
        given@.len() == 0 && p.default is Some ==> r@ == p.default->0@,
        given@.len() == 0 && p.default is None ==> r@.len() == 0,
{
}

/// What a list brings is queued behind what waits, in its order, each row once however often the
/// list is looked at, and no more than the limit.
pub proof fn lists_are_queued_as_they_come(p: &mut PendingEnqueue, ids: &Vec<TrackId>, errored: bool, loading: bool, queue: &mut Queue, now: u64, bus: &mut Bus, r: Option<String>)
    requires
        call_ensures(PendingEnqueue::advance, (p, ids, errored, loading, queue, now, bus), r),
        old(p).appended <= ids@.len(),
        old(p).appended <= ENQUEUE_CAP,
    ensures
        ids@.len() <= ENQUEUE_CAP ==> final(p).appended == ids@.len(),
        ids@.len() > ENQUEUE_CAP ==> final(p).appended == ENQUEUE_CAP && r is Some,
        final(queue)@.queue == old(queue)@.queue + ids@.subrange(
            old(p).appended as int,
            final(p).appended as int,
        ),
        final(queue)@.current == old(queue)@.current,
        !loading || errored || now >= old(p).deadline ==> r is Some,
        loading && !errored && now < old(p).deadline && ids@.len() <= ENQUEUE_CAP ==> r is None,
{
    assert(final(queue)@.queue =~= old(queue)@.queue + ids@.subrange(
        old(p).appended as int,
        final(p).appended as int,
    ));
}

/// A search that was begun is wanted until it is forgotten, and two searches have two numbers.
pub proof fn searches_are_told_apart(s: &mut Search, id: u64, after: &mut Search, other: u64)
    requires
        call_ensures(Search::run, (s,), id),
        *old(after) == *final(s),
        call_ensures(Search::run, (after,), other),
    ensures
        id != other,
        final(after)@.live.contains(id as u128) && final(after)@.live.contains(other as u128),
        forall|x: u128| old(s)@.live.contains(x) ==> #[trigger] final(s)@.live.contains(x),
{
}

/// Nothing that a forgotten search brings is told or kept.
pub proof fn forgotten_searches_are_silent(s: &mut Search, id: u64, after: &Search, source: &SourceId, hit: &Track, fresh: TrackId, catalog: &mut Catalog, bus: &mut Bus)
    requires
        call_ensures(Search::forget, (s, id), ()),
        *after == *final(s),
        call_ensures(Search::on_hit, (after, id, hit, fresh, catalog, bus), ()),
    ensures
        final(catalog).store@ == old(catalog).store@,
        final(bus)@ == old(bus)@,
{
}

/// A hit of a search that is wanted is told, under the search it belongs to, as a track of the
/// catalogue.
pub proof fn wanted_hits_are_told(s: &Search, id: u64, hit: &Track, fresh: TrackId, catalog: &mut Catalog, bus: &mut Bus)
    requires
        s@.live.contains(id as u128),
        call_ensures(Search::on_hit, (s, id, hit, fresh, catalog, bus), ()),
    ensures
        final(bus)@.len() > old(bus)@.len(),
        final(bus)@.last() matches CoreEvent::SearchHit { search, track } && search == id,
        final(bus)@.take(old(bus)@.len() as int) == old(bus)@,
{
    assert(final(bus)@.take(old(bus)@.len() as int) =~= old(bus)@);
}

/// The desktop's play key resumes what is paused and its pause key pauses what plays; each does
/// nothing where there is nothing to do.
pub proof fn media_keys_do_not_toggle(state: PlayerState, play: Option<Command>, pause: Option<Command>)
    requires
        call_ensures(play_command, (state,), play),
        call_ensures(pause_command, (state,), pause),
    ensures
        play is Some <==> state == PlayerState::Paused,
        pause is Some <==> state == PlayerState::Playing,
        play matches Some(c) ==> c is PlayPause,
        pause matches Some(c) ==> c is PlayPause,
{
}

/// A position that the desktop sets, in microseconds, is where the step from the present position
/// leads; a step of its own is taken as long as it was asked for, to the millisecond.
pub proof fn the_desktop_seeks_in_microseconds(target: i64, current: u32, d: i64, offset: i64, c: Command)
    requires
        call_ensures(set_position_delta_ms, (target, current), d),
        call_ensures(seek_command, (offset,), c),
    ensures
        -1000 < target - (current + d) * 1000 < 1000,
        target >= 0 ==> target - (current + d) * 1000 >= 0,
        c matches Command::Seek(s) && -1000 < offset - s * 1000 < 1000 && (offset >= 0 ==> s >= 0),
{
}

/// The desktop is shown the track that plays, with its length in microseconds.
pub proof fn the_desktop_shows_the_track(track: &Option<Track>, r: TrackCard)
    requires
        call_ensures(metadata, (track,), r),
    ensures
        *track matches Some(t) ==> r.length_us matches Some(us) && us == t@.duration_ms * 1000 && (r.title matches Some(
            x,
        ) && x@ == t@.title) && r.artists@.len() == t@.artists.len(),
        *track is None ==> r.title is None && r.length_us is None && r.artists@.len() == 0,
{
    if *track is Some {
        assert(crate::text::str_views(r.artists@).len() == r.artists@.len());
    }
}

/// A title that fits is shown whole; one that does not scrolls, within the width that is left, from
/// the moment it was first shown.
pub proof fn long_titles_scroll(w: &mut WindowTitle, full: String, prefix: &str, now: u64, r: TitleBody)
    requires
        call_ensures(WindowTitle::update, (w, full, prefix, now), r),
        prefix@.len() <= MAX_WIDTH,
        old(w).scroll_start <= now,
    ensures
        r is Whole <==> prefix@.len() + full@.len() <= MAX_WIDTH,
        r matches TitleBody::Scrolled { width, elapsed } ==> width + prefix@.len() == MAX_WIDTH && (full@ != old(
            w,
        ).full@ ==> elapsed == 0) && (full@ == old(w).full@ ==> elapsed + old(w).scroll_start == now),
{
}

/// A title is set only where it differs from the one that was set last.
pub proof fn titles_are_set_on_change(w: &mut WindowTitle, text: String, r: bool, after: &mut WindowTitle, again: bool)
    requires
        call_ensures(WindowTitle::set, (w, text), r),
        *old(after) == *final(w),
        call_ensures(WindowTitle::set, (after, text), again),
    ensures
        !again,
        old(w).last_set is None ==> r,
{
}

/// A search asks for albums and playlists exactly where it was asked for them, and for no track
/// that way.
pub proof fn collections_are_asked_for(q: &SearchQuery, r: Vec<ItemKind>)
    requires
        call_ensures(collections_wanted, (q,), r),
    ensures
        r@.contains(ItemKind::Album) <==> q.kinds@.contains(ItemKind::Album),
        r@.contains(ItemKind::Playlist) <==> q.kinds@.contains(ItemKind::Playlist),
        !r@.contains(ItemKind::Track),
        r@.len() <= 2,
{
    if q.kinds@.contains(ItemKind::Album) {
        assert(r@[0] == ItemKind::Album);
    }
    if q.kinds@.contains(ItemKind::Playlist) {
        assert(r@.last() == ItemKind::Playlist);
    }
}

} // verus!
