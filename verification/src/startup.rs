//! What a run starts from: where things are kept, what the configuration gets wrong, and where
//! the cache of this run is.

use vstd::prelude::*;
use crate::config::Config;
use crate::event::{CoreEvent, PlayerEvent};
use crate::exchange::{join_path, joined_path};
use crate::state::Saved;
use crate::text::{append_str, chars_of, debug_text, quoted, same_text, str_views, string_of};
use crate::types::opt_text;

verus! {

/// The directory of the player below a base directory that the environment names, or else below
/// the home directory.
pub open spec fn dir_of(named: Option<Seq<char>>, home: Seq<char>, below: Seq<char>) -> Seq<char> {
    match named {
        Some(x) => joined_path(x, "medley"@),
        None => joined_path(joined_path(home, below), "medley"@),
    }
}

/// The directory of the player below a base directory.
pub(crate) fn dir(named: &Option<String>, home: &str, below: &str) -> (r: String)
    ensures
        r@ == dir_of(opt_text(*named), home@, below@),
{
    match named {
        Some(x) => join_path(x, "medley"),
        None => join_path(&join_path(home, below), "medley"),
    }
}

/// Where the configuration is. `named` is what `XDG_CONFIG_HOME` says.
pub fn config_dir(named: &Option<String>, home: &str) -> (r: String)
    ensures
        r@ == dir_of(opt_text(*named), home@, ".config"@),
{
    dir(named, home, ".config")
}

/// Where the library, the state and the history are. `named` is what `XDG_DATA_HOME` says.
pub fn data_dir(named: &Option<String>, home: &str) -> (r: String)
    ensures
        r@ == dir_of(opt_text(*named), home@, ".local/share"@),
{
    dir(named, home, ".local/share")
}

/// The file that the state is kept in.
pub fn state_path(data_dir: &str) -> (r: String)
    ensures
        r@ == joined_path(data_dir@, "state.toml"@),
{
    join_path(data_dir, "state.toml")
}

/// Why `url` cannot read a text as a URL.
pub uninterp spec fn url_error(text: Seq<char>) -> Option<Seq<char>>;

/// `url::Url::parse`: the `Display` of its error, nothing when the text is a URL. The result is
/// named `url_error`.
#[verifier::external_body]
pub(crate) fn url_problem(text: &str) -> (r: Option<String>)
    ensures
        opt_text(r) == url_error(text@),
{
    url::Url::parse(text).err().map(|e| e.to_string())
}

pub open spec fn root_text(root: Seq<char>, why: Seq<char>) -> Seq<char> {
    "http root "@ + debug_text(root) + " is not a valid URL: "@ + why
}

/// What is wrong with a root, given why it is no URL.
pub fn root_problem(root: &str, why: &str) -> (r: String)
    ensures
        r@ == root_text(root@, why@),
{
    let mut v: Vec<char> = Vec::new();
    append_str(&mut v, "http root ");
    append_str(&mut v, &quoted(root));
    append_str(&mut v, " is not a valid URL: ");
    append_str(&mut v, why);
    assert(v@ =~= root_text(root@, why@));
    string_of(&v)
}

/// What is wrong with the roots: one problem for each that is no URL, in their order.
pub open spec fn root_problems(roots: Seq<Seq<char>>) -> Seq<Seq<char>>
    decreases roots.len(),
{
    if roots.len() == 0 {
        seq![]
    } else {
        let before = root_problems(roots.drop_last());
        match url_error(roots.last()) {
            Some(why) => before.push(root_text(roots.last(), why)),
            None => before,
        }
    }
}

/// What is wrong with the roots of the HTTP source.
pub fn config_problems(roots: &Vec<String>) -> (r: Vec<String>)
    ensures
        str_views(r@) == root_problems(str_views(roots@)),
{
    let mut out: Vec<String> = Vec::new();
    let ghost all = str_views(roots@);
    let n: usize = roots.len();
    let mut i: usize = 0;
    assert(all.take(0) =~= seq![]);
    assert(str_views(out@) =~= seq![]);
    while i < n
        invariant
            i <= n == roots@.len(),
            all == str_views(roots@),
            all.len() == n,
            str_views(out@) == root_problems(all.take(i as int)),
        decreases n - i,
    {
        proof {
            assert(all.take(i + 1).drop_last() =~= all.take(i as int));
            assert(all.take(i + 1).last() == roots@[i as int]@);
        }
        if let Some(why) = url_problem(&roots[i]) {
            let ghost before = out@;
            let p = root_problem(&roots[i], &why);
            let ghost pv = p@;
            out.push(p);
            assert(str_views(out@) =~= str_views(before).push(pv));
        }
        i = i + 1;
    }
    assert(all.take(n as int) =~= all);
    out
}

/// The problem of a configuration that cannot be read; the defaults stand in for it.
pub fn parse_problem(path: &str, why: &str) -> (r: String)
    ensures
        r@ == path@ + " failed to parse: "@ + why@ + "; using defaults"@,
{
    let mut v: Vec<char> = Vec::new();
    append_str(&mut v, path);
    append_str(&mut v, " failed to parse: ");
    append_str(&mut v, why);
    append_str(&mut v, "; using defaults");
    assert(v@ =~= path@ + " failed to parse: "@ + why@ + "; using defaults"@);
    string_of(&v)
}

impl Config {
    /// The settings of a first run, for which there is no configuration yet: the defaults, and a
    /// root on this machine.
    pub fn first_run() -> (r: Config)
        ensures
            str_views(r.http.roots@) == seq!["http://localhost:8000/"@],
            r.http.recurse_depth == 2,
            r.http.enabled,
            r.spotify.enabled && r.soundcloud.enabled && r.soulseek.enabled,
            r.vis.fps == 30,
            r.status_line && r.show_hints && r.auto_update,
            r.media_cache_dir@ == ""@,
            r.theme@ == "default"@,
    {
        let mut c = Config::default();
        let mut roots: Vec<String> = Vec::new();
        roots.push("http://localhost:8000/".to_owned());
        assert(str_views(roots@) =~= seq!["http://localhost:8000/"@]);
        c.http.roots = roots;
        c.http.recurse_depth = 2;
        c
    }

    /// Puts the cache below the directory of the library where the configuration names no other
    /// place.
    pub fn place_cache(&mut self, data_dir: &str)
        ensures
            *final(self) == (Config { media_cache_dir: final(self).media_cache_dir, ..*old(self) }),
            final(self).media_cache_dir@ == (if old(self).media_cache_dir@.len() == 0 {
                joined_path(data_dir@, "media-cache"@)
            } else {
                old(self).media_cache_dir@
            }),
    {
        if chars_of(&self.media_cache_dir).len() == 0 {
            self.media_cache_dir = join_path(data_dir, "media-cache");
        }
    }

    /// Where the cache must be moved from before it is used; nothing when it is in its place.
    pub fn pending_move(&self, s: &Saved) -> (r: Option<String>)
        ensures
            opt_text(r) == (match opt_text(s.media_cache_move_from) {
                Some(from) => if from != self.media_cache_dir@ {
                    Some(from)
                } else {
                    None
                },
                None => None,
            }),
    {
        match &s.media_cache_move_from {
            Some(from) => if same_text(from, &self.media_cache_dir) {
                None
            } else {
                Some(from.clone())
            },
            None => None,
        }
    }

    /// The cache could not be moved: it stays where it is. Gives the problem.
    pub fn keep_cache(&mut self, from: String, why: &str) -> (r: String)
        ensures
            *final(self) == (Config { media_cache_dir: from, ..*old(self) }),
            r@ == "media cache not moved to "@ + old(self).media_cache_dir@ + ": "@ + why@ + "; still using "@ + from@,
    {
        let mut v: Vec<char> = Vec::new();
        append_str(&mut v, "media cache not moved to ");
        append_str(&mut v, &self.media_cache_dir);
        append_str(&mut v, ": ");
        append_str(&mut v, why);
        append_str(&mut v, "; still using ");
        append_str(&mut v, &from);
        assert(v@ =~= "media cache not moved to "@ + old(self).media_cache_dir@ + ": "@ + why@ + "; still using "@ + from@);
        self.media_cache_dir = from;
        string_of(&v)
    }
}

/// The player began, paused or stopped.
pub open spec fn tells_state(ev: CoreEvent) -> bool {
    ev matches CoreEvent::Player(p) && (p is Playing || p is Paused || p is Stopped)
}

/// Whether media keys and widgets must hear of a new state: not of every step of the position.
pub fn playback_state_changed(events: &Vec<CoreEvent>) -> (r: bool)
    ensures
        r == exists|i: int| 0 <= i < events@.len() && #[trigger] tells_state(events@[i]),
{
    let n: usize = events.len();
    let mut i: usize = 0;
    while i < n
        invariant
            i <= n == events@.len(),
            forall|k: int| 0 <= k < i ==> !#[trigger] tells_state(events@[k]),
        decreases n - i,
    {
        match &events[i] {
            CoreEvent::Player(PlayerEvent::Playing { .. }) | CoreEvent::Player(PlayerEvent::Paused) | CoreEvent::Player(
                PlayerEvent::Stopped,
            ) => {
                assert(tells_state(events@[i as int]));
                return true;
            },
            _ => {},
        }
        i = i + 1;
    }
    false
}

/// Whether the screen must be drawn anew from scratch: a login may have written over it.
pub fn needs_full_redraw(events: &Vec<CoreEvent>) -> (r: bool)
    ensures
        r == exists|i: int| 0 <= i < events@.len() && #[trigger] events@[i] is PluginLoginSucceeded,
{
    let n: usize = events.len();
    let mut i: usize = 0;
    while i < n
        invariant
            i <= n == events@.len(),
            forall|k: int| 0 <= k < i ==> !(#[trigger] events@[k] is PluginLoginSucceeded),
        decreases n - i,
    {
        match &events[i] {
            CoreEvent::PluginLoginSucceeded => {
                assert(events@[i as int] is PluginLoginSucceeded);
                return true;
            },
            _ => {},
        }
        i = i + 1;
    }
    false
}

} // verus!
