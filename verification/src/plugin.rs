//! Optional sources: their health, and the dialog that sets them up.

use vstd::prelude::*;
use crate::event::{Bus, CoreEvent};
use crate::text::chars_of;
use crate::types::{opt_text, SourceId};

verus! {

/// One question of a setup.
#[derive(Debug)]
pub struct SetupPrompt {
    pub text: String,
    /// The answer is not shown.
    pub secret: bool,
    /// What an empty answer means.
    pub default: Option<String>,
}

impl SetupPrompt {
    pub fn new(text: &str) -> (r: SetupPrompt)
        ensures
            r.text@ == text@,
            !r.secret,
            r.default is None,
    {
        SetupPrompt { text: text.to_owned(), secret: false, default: None }
    }

    pub fn secret(self) -> (r: SetupPrompt)
        ensures
            r == (SetupPrompt { secret: true, ..self }),
    {
        SetupPrompt { text: self.text, secret: true, default: self.default }
    }

    pub fn default(self, value: &str) -> (r: SetupPrompt)
        ensures
            r.text == self.text,
            r.secret == self.secret,
            opt_text(r.default) == Some(value@),
    {
        SetupPrompt { text: self.text, secret: self.secret, default: Some(value.to_owned()) }
    }

    /// The answer that is kept: an empty one means the default.
    pub fn answer(&self, given: String) -> (r: String)
        ensures
            r@ == (if given@.len() == 0 && self.default is Some {
                self.default->0@
            } else {
                given@
            }),
    {
        if chars_of(&given).len() == 0 {
            if let Some(d) = &self.default {
                return d.clone();
            }
        }
        given
    }
}

/// A running setup's link to its dialog.
pub struct SetupLog {
    pub id: SourceId,
    /// Which run of a setup this is.
    pub run: u64,
    pub cancelled: bool,
}

impl SetupLog {
    pub fn new(id: SourceId, run: u64) -> (r: SetupLog)
        ensures
            r == (SetupLog { id, run, cancelled: false }),
    {
        SetupLog { id, run, cancelled: false }
    }

    /// Adds a line to the log of the dialog.
    pub fn say(&self, line: String, bus: &mut Bus)
        ensures
            final(bus)@.len() == old(bus)@.len() + 1,
            final(bus)@.drop_last() == old(bus)@,
            final(bus)@.last() matches CoreEvent::SetupLine { id, run, line: l } && id@ == self.id@ && run
                == self.run && l == line,
    {
        bus.send(CoreEvent::SetupLine { id: self.id.clone(), run: self.run, line });
        assert(bus@.drop_last() =~= old(bus)@);
    }

    /// The dialog was closed: what comes of the setup is dropped.
    pub fn cancel(&mut self)
        ensures
            *final(self) == (SetupLog { cancelled: true, ..*old(self) }),
    {
        self.cancelled = true;
    }

    pub fn cancelled(&self) -> (r: bool)
        ensures
            r == self.cancelled,
    {
        self.cancelled
    }
}

/// How an optional source is.
#[derive(Debug)]
pub enum PluginHealth {
    Healthy,
    /// It works in part, and why.
    Warn(String),
    /// It does not work, and why.
    Fail(String),
}

pub enum HealthView {
    Healthy,
    Warn(Seq<char>),
    Fail(Seq<char>),
}

impl View for PluginHealth {
    type V = HealthView;

    open spec fn view(&self) -> HealthView {
        match self {
            PluginHealth::Healthy => HealthView::Healthy,
            PluginHealth::Warn(m) => HealthView::Warn(m@),
            PluginHealth::Fail(m) => HealthView::Fail(m@),
        }
    }
}

impl Clone for PluginHealth {
    fn clone(&self) -> (r: PluginHealth)
        ensures
            r@ == self@,
    {
        match self {
            PluginHealth::Healthy => PluginHealth::Healthy,
            PluginHealth::Warn(m) => PluginHealth::Warn(m.clone()),
            PluginHealth::Fail(m) => PluginHealth::Fail(m.clone()),
        }
    }
}

impl PluginHealth {
    pub fn is_ok(&self) -> (r: bool)
        ensures
            r == (self@ is Healthy),
    {
        match self {
            PluginHealth::Healthy => true,
            _ => false,
        }
    }

    pub fn message(&self) -> (r: Option<String>)
        ensures
            opt_text(r) == (match self@ {
                HealthView::Healthy => None,
                HealthView::Warn(m) => Some(m),
                HealthView::Fail(m) => Some(m),
            }),
    {
        match self {
            PluginHealth::Healthy => None,
            PluginHealth::Warn(m) => Some(m.clone()),
            PluginHealth::Fail(m) => Some(m.clone()),
        }
    }

    pub fn same(&self, other: &PluginHealth) -> (r: bool)
        ensures
            r == (self@ == other@),
    {
        match (self, other) {
            (PluginHealth::Healthy, PluginHealth::Healthy) => true,
            (PluginHealth::Warn(a), PluginHealth::Warn(b)) => *a == *b,
            (PluginHealth::Fail(a), PluginHealth::Fail(b)) => *a == *b,
            _ => false,
        }
    }
}

/// A command that a plugin adds: its word, and what help says of it.
pub struct PluginCommand {
    pub word: String,
    pub help: String,
}

} // verus!
