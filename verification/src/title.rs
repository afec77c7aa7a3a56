//! The title of the window: what plays, scrolled where it is too long.

use vstd::prelude::*;
use crate::text::{chars_of, same_text};
use crate::types::opt_text;

verus! {

/// How wide a title is shown.
pub const MAX_WIDTH: usize = 80;

pub struct WindowTitle {
    /// What plays, in words.
    pub full: String,
    /// When it was first shown, in milliseconds.
    pub scroll_start: u64,
    /// The title that was set last.
    pub last_set: Option<String>,
}

/// How the text behind the prefix is shown.
#[derive(Clone, Copy, PartialEq, Eq, Structural, Debug)]
pub enum TitleBody {
    Whole,
    /// A window of so many characters, after so many milliseconds of scrolling.
    Scrolled { width: usize, elapsed: u64 },
}

/// The width that is left behind a prefix.
pub open spec fn room(prefix: Seq<char>) -> int {
    if prefix.len() >= MAX_WIDTH {
        0
    } else {
        MAX_WIDTH - prefix.len()
    }
}

impl WindowTitle {
    pub fn new(now: u64) -> (r: WindowTitle)
        ensures
            r.full@ == ""@,
            r.scroll_start == now,
            r.last_set is None,
    {
        WindowTitle { full: "".to_owned(), scroll_start: now, last_set: None }
    }

    /// Takes what plays and says how it is shown behind a prefix that does not move. Scrolling
    /// starts anew with each text.
    pub fn update(&mut self, full: String, prefix: &str, now: u64) -> (r: TitleBody)
        ensures
            final(self).full@ == full@,
            final(self).scroll_start == (if full@ == old(self).full@ {
                old(self).scroll_start
            } else {
                now
            }),
            final(self).last_set == old(self).last_set,
            r == (if full@.len() <= room(prefix@) {
                TitleBody::Whole
            } else {
                TitleBody::Scrolled {
                    width: room(prefix@) as usize,
                    elapsed: if now >= final(self).scroll_start {
                        (now - final(self).scroll_start) as u64
                    } else {
                        0
                    },
                }
            }),
    {
        if !same_text(&full, &self.full) {
            self.full = full;
            self.scroll_start = now;
        }
        let used: usize = chars_of(prefix).len();
        let width: usize = if used >= MAX_WIDTH {
            0
        } else {
            MAX_WIDTH - used
        };
        if chars_of(&self.full).len() <= width {
            TitleBody::Whole
        } else {
            TitleBody::Scrolled { width, elapsed: now.saturating_sub(self.scroll_start) }
        }
    }

    /// Whether a title is to be set: only where it differs from the last one.
    pub fn set(&mut self, text: String) -> (r: bool)
        ensures
            r == (opt_text(old(self).last_set) != Some(text@)),
            opt_text(final(self).last_set) == Some(text@),
            final(self).full == old(self).full,
            final(self).scroll_start == old(self).scroll_start,
    {
        let same: bool = match &self.last_set {
            Some(t) => same_text(t, &text),
            None => false,
        };
        if same {
            return false;
        }
        self.last_set = Some(text);
        true
    }
}

} // verus!
