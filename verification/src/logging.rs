//! Which log messages are written: at which level, and how floods of them are cut short.

use vstd::prelude::*;
use crate::exchange::{join_path, joined_path};
use crate::startup::{dir, dir_of};
use crate::text::{
    append_decimal, append_str, ascii_lower_of, chars_of, decimal, find_from, first_of, same_text, string_of, str_views,
    strip_prefix, stripped, to_ascii_lower, trim, trim_of,
};
use crate::types::opt_text;

verus! {

#[derive(Clone, Copy, PartialEq, Eq, Structural, Debug)]
pub enum Level {
    Off,
    Error,
    Warn,
    Info,
    Debug,
    Trace,
}

/// The rank of a level; a message is written where its rank is no higher.
pub open spec fn rank_of(l: Level) -> nat {
    match l {
        Level::Off => 0,
        Level::Error => 1,
        Level::Warn => 2,
        Level::Info => 3,
        Level::Debug => 4,
        Level::Trace => 5,
    }
}

/// The level that a word names, in any case and with space around it.
pub open spec fn level_named(s: Seq<char>) -> Option<Level> {
    let w = ascii_lower_of(trim_of(s));
    if w == "off"@ {
        Some(Level::Off)
    } else if w == "error"@ {
        Some(Level::Error)
    } else if w == "warn"@ {
        Some(Level::Warn)
    } else if w == "info"@ {
        Some(Level::Info)
    } else if w == "debug"@ {
        Some(Level::Debug)
    } else if w == "trace"@ {
        Some(Level::Trace)
    } else {
        None
    }
}

pub fn parse_level(s: &str) -> (r: Option<Level>)
    ensures
        r == level_named(s@),
{
    let w = string_of(&to_ascii_lower(&trim(&chars_of(s))));
    if same_text(&w, "off") {
        Some(Level::Off)
    } else if same_text(&w, "error") {
        Some(Level::Error)
    } else if same_text(&w, "warn") {
        Some(Level::Warn)
    } else if same_text(&w, "info") {
        Some(Level::Info)
    } else if same_text(&w, "debug") {
        Some(Level::Debug)
    } else if same_text(&w, "trace") {
        Some(Level::Trace)
    } else {
        None
    }
}

/// The level that arguments ask for, from `i` on: the word behind the first switch, whether or not
/// it names a level.
pub open spec fn level_asked(args: Seq<Seq<char>>, i: int) -> Option<Level>
    decreases args.len() - i,
{
    if i < 0 || i >= args.len() {
        None
    } else if args[i] == "--log-level"@ {
        if i + 1 < args.len() {
            level_named(args[i + 1])
        } else {
            None
        }
    } else {
        match stripped(args[i], "--log-level="@) {
            Some(v) => level_named(v),
            None => level_asked(args, i + 1),
        }
    }
}

/// The level that the arguments of a program ask for.
pub fn level_from_args(args: &Vec<String>) -> (r: Option<Level>)
    ensures
        r == level_asked(str_views(args@), 0),
{
    let ghost w = str_views(args@);
    let n: usize = args.len();
    let mut i: usize = 0;
    while i < n
        invariant
            i <= n == args@.len(),
            w == str_views(args@),
            level_asked(w, i as int) == level_asked(w, 0),
        decreases n - i,
    {
        assert(w[i as int] == args@[i as int]@);
        if same_text(&args[i], "--log-level") {
            if i + 1 < n {
                assert(w[i + 1] == args@[i + 1]@);
                return parse_level(&args[i + 1]);
            }
            return None;
        }
        if let Some(v) = strip_prefix(&chars_of(&args[i]), "--log-level=") {
            return parse_level(&string_of(&v));
        }
        i = i + 1;
    }
    None
}

/// The level that holds: what the arguments ask for, else the environment, else `Info`.
pub open spec fn level_resolved(args: Seq<Seq<char>>, env: Option<Seq<char>>) -> Level {
    match level_asked(args, 0) {
        Some(l) => l,
        None => match env {
            Some(v) => match level_named(v) {
                Some(l) => l,
                None => Level::Info,
            },
            None => Level::Info,
        },
    }
}

pub fn resolve_level(args: &Vec<String>, env: &Option<String>) -> (r: Level)
    ensures
        r == level_resolved(str_views(args@), opt_text(*env)),
{
    match level_from_args(args) {
        Some(l) => l,
        None => match env {
            Some(v) => match parse_level(v) {
                Some(l) => l,
                None => Level::Info,
            },
            None => Level::Info,
        },
    }
}

/// The decoder whose floods of warnings are cut short.
#[derive(Clone, Copy, PartialEq, Eq, Structural, Debug)]
pub enum Noise {
    Symphonia,
    Librespot,
}

pub open spec fn noise_word(n: Noise) -> Seq<char> {
    match n {
        Noise::Symphonia => "symphonia"@,
        Noise::Librespot => "librespot_playback::decoder"@,
    }
}

/// Whether a text starts with another.
pub open spec fn starts(s: Seq<char>, p: Seq<char>) -> bool {
    stripped(s, p) is Some
}

pub open spec fn noise_of(target: Seq<char>) -> Option<Noise> {
    if starts(target, "symphonia"@) {
        Some(Noise::Symphonia)
    } else if starts(target, "librespot_playback::decoder"@) {
        Some(Noise::Librespot)
    } else {
        None
    }
}

pub fn decode_noise_key(target: &str) -> (r: Option<Noise>)
    ensures
        r == noise_of(target@),
{
    let v = chars_of(target);
    if strip_prefix(&v, "symphonia").is_some() {
        Some(Noise::Symphonia)
    } else if strip_prefix(&v, "librespot_playback::decoder").is_some() {
        Some(Noise::Librespot)
    } else {
        None
    }
}

/// Whether a warning is of use only once: it comes with every read of the credentials.
pub open spec fn once_only(target: Seq<char>, message: Seq<char>) -> bool {
    starts(target, "librespot_core::cache"@) && first_of(message, "is currently world readable"@) is Some
}

pub fn once_per_run(target: &str, message: &str) -> (r: bool)
    ensures
        r == once_only(target@, message@),
{
    strip_prefix(&chars_of(target), "librespot_core::cache").is_some() && find_from(
        &chars_of(message),
        &chars_of("is currently world readable"),
        0,
    ).is_some()
}

/// What lets messages through.
pub struct LogGate {
    pub level: Level,
    /// The flood that is being cut short, and how many of its warnings were left out.
    pub burst: Option<(Noise, u64)>,
    /// A warning that is of use only once was written.
    pub once_seen: bool,
}

/// What becomes of a message: whether it is written, and the line that ends a flood before it.
pub struct Passage {
    pub write: bool,
    pub summary: Option<String>,
}

pub open spec fn summary_text(b: Option<(Noise, u64)>) -> Option<Seq<char>> {
    match b {
        Some((k, n)) => if n > 0 {
            Some("..."@ + decimal(n as nat) + " more \""@ + noise_word(k) + "\" warning(s) suppressed"@)
        } else {
            None
        },
        None => None,
    }
}

pub open spec fn noise_at(level: Level, target: Seq<char>) -> Option<Noise> {
    if level == Level::Warn {
        noise_of(target)
    } else {
        None
    }
}

pub open spec fn one_more(n: u64) -> u64 {
    if n < u64::MAX {
        (n + 1) as u64
    } else {
        n
    }
}

/// The state after a message, whether the message is written, and the line before it.
pub open spec fn passed(g: LogGate, level: Level, target: Seq<char>, message: Seq<char>) -> (LogGate, bool, Option<Seq<char>>) {
    let once = level == Level::Warn && once_only(target, message);
    if rank_of(level) > rank_of(g.level) || (once && g.once_seen) {
        (g, false, None)
    } else {
        let g1 = LogGate { once_seen: g.once_seen || once, ..g };
        match (g.burst, noise_at(level, target)) {
            (Some((k, n)), Some(m)) => if k == m {
                (LogGate { burst: Some((k, one_more(n))), ..g1 }, false, None)
            } else {
                (LogGate { burst: Some((m, 0)), ..g1 }, true, summary_text(g.burst))
            },
            (_, Some(m)) => (LogGate { burst: Some((m, 0)), ..g1 }, true, summary_text(g.burst)),
            (_, None) => (LogGate { burst: None, ..g1 }, true, summary_text(g.burst)),
        }
    }
}

fn rank(l: Level) -> (r: u8)
    ensures
        r == rank_of(l),
{
    match l {
        Level::Off => 0,
        Level::Error => 1,
        Level::Warn => 2,
        Level::Info => 3,
        Level::Debug => 4,
        Level::Trace => 5,
    }
}

fn summary(b: &Option<(Noise, u64)>) -> (r: Option<String>)
    ensures
        opt_text(r) == summary_text(*b),
{
    match b {
        None => None,
        Some((k, n)) => {
            if *n == 0 {
                return None;
            }
            let mut v: Vec<char> = Vec::new();
            append_str(&mut v, "...");
            append_decimal(&mut v, *n);
            append_str(&mut v, " more \"");
            match k {
                Noise::Symphonia => append_str(&mut v, "symphonia"),
                Noise::Librespot => append_str(&mut v, "librespot_playback::decoder"),
            }
            append_str(&mut v, "\" warning(s) suppressed");
            assert(v@ =~= "..."@ + decimal(*n as nat) + " more \""@ + noise_word(*k) + "\" warning(s) suppressed"@);
            Some(string_of(&v))
        },
    }
}

impl LogGate {
    pub fn new(level: Level) -> (r: LogGate)
        ensures
            r == (LogGate { level, burst: None, once_seen: false }),
    {
        LogGate { level, burst: None, once_seen: false }
    }

    /// Whether messages of a level are written.
    pub fn enabled(&self, level: Level) -> (r: bool)
        ensures
            r == (rank_of(level) <= rank_of(self.level)),
    {
        rank(level) <= rank(self.level)
    }

    /// Takes a message.
    pub fn take(&mut self, level: Level, target: &str, message: &str) -> (r: Passage)
        ensures
            (*final(self), r.write, opt_text(r.summary)) == passed(*old(self), level, target@, message@),
    {
        if !self.enabled(level) {
            return Passage { write: false, summary: None };
        }
        if level == Level::Warn && once_per_run(target, message) {
            if self.once_seen {
                return Passage { write: false, summary: None };
            }
            self.once_seen = true;
        }
        let key: Option<Noise> = if level == Level::Warn {
            decode_noise_key(target)
        } else {
            None
        };
        if let (Some((k, n)), Some(m)) = (self.burst, key) {
            if k == m {
                self.burst = Some(
                    (
                        k,
                        if n < u64::MAX {
                            n + 1
                        } else {
                            n
                        },
                    ),
                );
                return Passage { write: false, summary: None };
            }
        }
        let summary = summary(&self.burst);
        self.burst = match key {
            Some(m) => Some((m, 0)),
            None => None,
        };
        Passage { write: true, summary }
    }

    /// Ends a flood: the line that says how many warnings were left out.
    pub fn flush(&mut self) -> (r: Option<String>)
        ensures
            opt_text(r) == summary_text(old(self).burst),
            *final(self) == (LogGate { burst: None, ..*old(self) }),
    {
        let r = summary(&self.burst);
        self.burst = None;
        r
    }
}

/// The word for a level, all of one width.
pub open spec fn level_word(l: Level) -> Seq<char> {
    match l {
        Level::Off => ""@,
        Level::Error => "ERROR"@,
        Level::Warn => "WARN "@,
        Level::Info => "INFO "@,
        Level::Debug => "DEBUG"@,
        Level::Trace => "TRACE"@,
    }
}

/// The line of a message as it is shown, with the time of day.
pub fn log_line(time: &str, level: Level, message: &str) -> (r: String)
    ensures
        r@ == time@ + " "@ + level_word(level) + " "@ + message@,
{
    let mut s = time.to_owned();
    s.append(" ");
    s.append(match level {
        Level::Off => "",
        Level::Error => "ERROR",
        Level::Warn => "WARN ",
        Level::Info => "INFO ",
        Level::Debug => "DEBUG",
        Level::Trace => "TRACE",
    });
    s.append(" ");
    s.append(message);
    s
}

/// Of a flood of like warnings the first is written, no other is, and the next message of another
/// kind comes with the number of those that were left out.
pub proof fn floods_are_counted(g: LogGate, target: Seq<char>, message: Seq<char>, n: u64)
    requires
        noise_of(target) is Some,
        !once_only(target, message),
        rank_of(g.level) >= 2,
        g.burst == Some((noise_of(target)->0, n)),
        n < u64::MAX,
    ensures
        ({
            let (g1, write, line) = passed(g, Level::Warn, target, message);
            &&& !write && line is None
            &&& g1.burst == Some((noise_of(target)->0, (n + 1) as u64))
            &&& passed(g1, Level::Error, target, message).1
            &&& passed(g1, Level::Error, target, message).2 == summary_text(g1.burst) && summary_text(g1.burst) is Some
        }),
{
}

/// The directory of what is kept between runs but is no data of the user. `named` is what
/// `XDG_STATE_HOME` says.
pub fn state_dir(named: &Option<String>, home: &str) -> (r: String)
    ensures
        r@ == dir_of(opt_text(*named), home@, ".local/state"@),
{
    dir(named, home, ".local/state")
}

/// The file that messages are written to.
pub fn log_path(state_dir: &str) -> (r: String)
    ensures
        r@ == joined_path(state_dir@, "medley.log"@),
{
    join_path(state_dir, "medley.log")
}

} // verus!
