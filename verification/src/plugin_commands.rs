//! The commands that plugins bring along.

use vstd::prelude::*;
use crate::plugin::PluginCommand;
use crate::text::same_text;
use crate::types::SourceId;

verus! {

/// The commands of all plugins, each with its plugin, in the order in which they were brought.
pub struct PluginCommands {
    pub entries: Vec<(SourceId, PluginCommand)>,
}

/// A command: its plugin, its word and its help.
pub struct CommandView {
    pub plugin: Seq<char>,
    pub word: Seq<char>,
    pub help: Seq<char>,
}

pub open spec fn command_view(e: (SourceId, PluginCommand)) -> CommandView {
    CommandView { plugin: e.0@, word: e.1.word@, help: e.1.help@ }
}

impl View for PluginCommands {
    type V = Seq<CommandView>;

    open spec fn view(&self) -> Seq<CommandView> {
        self.entries@.map_values(|e: (SourceId, PluginCommand)| command_view(e))
    }
}

/// The plugin whose command a word is; of several the one that came last.
pub open spec fn owner(v: Seq<CommandView>, word: Seq<char>) -> Option<Seq<char>>
    decreases v.len(),
{
    if v.len() == 0 {
        None
    } else if v.last().word == word {
        Some(v.last().plugin)
    } else {
        owner(v.drop_last(), word)
    }
}

pub open spec fn help_view(h: (String, String)) -> (Seq<char>, Seq<char>) {
    (h.0@, h.1@)
}

impl PluginCommands {
    pub fn new() -> (r: PluginCommands)
        ensures
            r@ == Seq::<CommandView>::empty(),
    {
        let r = PluginCommands { entries: Vec::new() };
        assert(r@ =~= Seq::<CommandView>::empty());
        r
    }

    /// Adds a command of a plugin.
    pub fn register(&mut self, plugin: SourceId, command: PluginCommand)
        ensures
            final(self)@ == old(self)@.push(command_view((plugin, command))),
    {
        let ghost v = command_view((plugin, command));
        let ghost before = self@;
        self.entries.push((plugin, command));
        assert(self@ =~= before.push(v));
    }

    /// Every command's word and help, for the help screen.
    pub fn plugin_command_help(&self) -> (r: Vec<(String, String)>)
        ensures
            r@.len() == self@.len(),
            forall|i: int| 0 <= i < r@.len() ==> help_view(#[trigger] r@[i]) == (self@[i].word, self@[i].help),
    {
        let mut out: Vec<(String, String)> = Vec::new();
        let n: usize = self.entries.len();
        let mut i: usize = 0;
        while i < n
            invariant
                i <= n == self.entries@.len(),
                out@.len() == i,
                forall|k: int| 0 <= k < i ==> help_view(#[trigger] out@[k]) == (self@[k].word, self@[k].help),
            decreases n - i,
        {
            assert(self@[i as int] == command_view(self.entries@[i as int]));
            out.push((self.entries[i].1.word.clone(), self.entries[i].1.help.clone()));
            i = i + 1;
        }
        out
    }

    /// The plugin whose command a word is.
    pub fn plugin_for_command(&self, word: &str) -> (r: Option<SourceId>)
        ensures
            match r {
                Some(id) => owner(self@, word@) == Some(id@),
                None => owner(self@, word@) is None,
            },
    {
        let mut i: usize = self.entries.len();
        assert(self@.take(i as int) =~= self@);
        while i > 0
            invariant
                i <= self.entries@.len(),
                owner(self@, word@) == owner(self@.take(i as int), word@),
            decreases i,
        {
            i = i - 1;
            assert(self@.take(i + 1).drop_last() =~= self@.take(i as int));
            assert(self@.take(i + 1).last() == command_view(self.entries@[i as int]));
            if same_text(&self.entries[i].1.word, word) {
                return Some(self.entries[i].0.clone());
            }
        }
        None
    }
}

/// A word that a plugin brings along is answered by it until another plugin brings the same word.
pub proof fn the_last_to_bring_a_word_answers(v: Seq<CommandView>, c: CommandView, word: Seq<char>)
    ensures
        owner(v.push(c), c.word) == Some(c.plugin),
        word != c.word ==> owner(v.push(c), word) == owner(v, word),
{
    assert(v.push(c).drop_last() =~= v);
}

} // verus!
