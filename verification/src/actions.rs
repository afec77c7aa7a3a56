//! The commands that a key can stand for.

use vstd::prelude::*;
use crate::text::same_text;

verus! {

/// A command of the player that a single key normally gives and that can be moved to another key.
#[derive(Clone, Copy, Debug, PartialEq, Eq, Structural, Hash)]
pub enum BuiltinAction {
    Next,
    Previous,
    SeekForward,
    SeekBack,
    AddToPlaylistOrNew,
    Quit,
    ClearQueue,
    ToggleScan,
    ToggleShuffle,
    Update,
    CyclePaneLayout,
    CyclePlacement,
    Enqueue,
    Wedge,
    Like,
    SwitchPlaylists,
    OpenHelp,
    RevealPlaying,
    ToggleLog,
    ToggleSettings,
    ToggleVis,
    ToggleQueue,
    ToggleHistory,
    ShowHistory,
    Link,
    Unlink,
    PlayPause,
    ExportPlaylist,
    PromptSearch,
    PromptAddToPlaylist,
    PromptOpen,
    PromptExport,
    PromptWindow,
    PromptPanes,
}

/// Every action, in the order in which they are listed.
pub open spec fn all_actions() -> Seq<BuiltinAction> {
    seq![
        BuiltinAction::Next,
        BuiltinAction::Previous,
        BuiltinAction::SeekForward,
        BuiltinAction::SeekBack,
        BuiltinAction::AddToPlaylistOrNew,
        BuiltinAction::Quit,
        BuiltinAction::ClearQueue,
        BuiltinAction::ToggleScan,
        BuiltinAction::ToggleShuffle,
        BuiltinAction::Update,
        BuiltinAction::CyclePaneLayout,
        BuiltinAction::CyclePlacement,
        BuiltinAction::Enqueue,
        BuiltinAction::Wedge,
        BuiltinAction::Like,
        BuiltinAction::SwitchPlaylists,
        BuiltinAction::OpenHelp,
        BuiltinAction::RevealPlaying,
        BuiltinAction::ToggleLog,
        BuiltinAction::ToggleSettings,
        BuiltinAction::ToggleVis,
        BuiltinAction::ToggleQueue,
        BuiltinAction::ToggleHistory,
        BuiltinAction::ShowHistory,
        BuiltinAction::Link,
        BuiltinAction::Unlink,
        BuiltinAction::PlayPause,
        BuiltinAction::ExportPlaylist,
        BuiltinAction::PromptSearch,
        BuiltinAction::PromptAddToPlaylist,
        BuiltinAction::PromptOpen,
        BuiltinAction::PromptExport,
        BuiltinAction::PromptWindow,
        BuiltinAction::PromptPanes,
    ]
}

/// The key of an action that nothing has moved.
pub open spec fn default_key_of(a: BuiltinAction) -> Option<char> {
    match a {
        BuiltinAction::Next => Some('n'),
        BuiltinAction::Previous => Some('p'),
        BuiltinAction::SeekForward => Some('.'),
        BuiltinAction::SeekBack => Some(','),
        BuiltinAction::AddToPlaylistOrNew => Some('+'),
        BuiltinAction::Quit => Some('Q'),
        BuiltinAction::ClearQueue => Some('E'),
        BuiltinAction::ToggleScan => Some('B'),
        BuiltinAction::ToggleShuffle => Some('s'),
        BuiltinAction::CyclePaneLayout => Some('P'),
        BuiltinAction::CyclePlacement => Some('M'),
        BuiltinAction::Enqueue => Some('q'),
        BuiltinAction::Wedge => Some('w'),
        BuiltinAction::Like => Some('l'),
        BuiltinAction::SwitchPlaylists => Some('`'),
        BuiltinAction::OpenHelp => Some('?'),
        BuiltinAction::RevealPlaying => Some('0'),
        BuiltinAction::PlayPause => Some(' '),
        BuiltinAction::ExportPlaylist => Some('x'),
        BuiltinAction::PromptOpen => Some('o'),
        _ => None,
    }
}

/// The action whose default a key is.
pub open spec fn action_of_key(key: char) -> Option<BuiltinAction> {
    match key {
        'n' => Some(BuiltinAction::Next),
        'p' => Some(BuiltinAction::Previous),
        '.' => Some(BuiltinAction::SeekForward),
        ',' => Some(BuiltinAction::SeekBack),
        '+' => Some(BuiltinAction::AddToPlaylistOrNew),
        'Q' => Some(BuiltinAction::Quit),
        'E' => Some(BuiltinAction::ClearQueue),
        'B' => Some(BuiltinAction::ToggleScan),
        's' => Some(BuiltinAction::ToggleShuffle),
        'P' => Some(BuiltinAction::CyclePaneLayout),
        'M' => Some(BuiltinAction::CyclePlacement),
        'q' => Some(BuiltinAction::Enqueue),
        'w' => Some(BuiltinAction::Wedge),
        'l' => Some(BuiltinAction::Like),
        '`' => Some(BuiltinAction::SwitchPlaylists),
        '?' => Some(BuiltinAction::OpenHelp),
        '0' => Some(BuiltinAction::RevealPlaying),
        ' ' => Some(BuiltinAction::PlayPause),
        'x' => Some(BuiltinAction::ExportPlaylist),
        'o' => Some(BuiltinAction::PromptOpen),
        _ => None,
    }
}

/// The name of an action.
pub open spec fn action_id(a: BuiltinAction) -> Seq<char> {
    match a {
        BuiltinAction::Next => "next"@,
        BuiltinAction::Previous => "previous"@,
        BuiltinAction::SeekForward => "seek-forward"@,
        BuiltinAction::SeekBack => "seek-back"@,
        BuiltinAction::AddToPlaylistOrNew => "add-to-playlist"@,
        BuiltinAction::Quit => "quit"@,
        BuiltinAction::ClearQueue => "clear-queue"@,
        BuiltinAction::ToggleScan => "toggle-scan"@,
        BuiltinAction::ToggleShuffle => "toggle-shuffle"@,
        BuiltinAction::Update => "update"@,
        BuiltinAction::CyclePaneLayout => "cycle-panes"@,
        BuiltinAction::CyclePlacement => "cycle-placement"@,
        BuiltinAction::Enqueue => "enqueue"@,
        BuiltinAction::Wedge => "wedge"@,
        BuiltinAction::Like => "like"@,
        BuiltinAction::SwitchPlaylists => "switch-playlists"@,
        BuiltinAction::OpenHelp => "open-help"@,
        BuiltinAction::RevealPlaying => "reveal-playing"@,
        BuiltinAction::ToggleLog => "toggle-log"@,
        BuiltinAction::ToggleSettings => "toggle-settings"@,
        BuiltinAction::ToggleVis => "toggle-vis"@,
        BuiltinAction::ToggleQueue => "toggle-queue"@,
        BuiltinAction::ToggleHistory => "toggle-history"@,
        BuiltinAction::ShowHistory => "show-history"@,
        BuiltinAction::Link => "link"@,
        BuiltinAction::Unlink => "unlink"@,
        BuiltinAction::PlayPause => "play-pause"@,
        BuiltinAction::ExportPlaylist => "export-playlist"@,
        BuiltinAction::PromptSearch => "prompt-search"@,
        BuiltinAction::PromptAddToPlaylist => "prompt-add-to-playlist"@,
        BuiltinAction::PromptOpen => "prompt-open"@,
        BuiltinAction::PromptExport => "prompt-export"@,
        BuiltinAction::PromptWindow => "prompt-window"@,
        BuiltinAction::PromptPanes => "prompt-panes"@,
    }
}

/// Where an action stands in the list.
pub open spec fn action_position(a: BuiltinAction) -> int {
    match a {
        BuiltinAction::Next => 0,
        BuiltinAction::Previous => 1,
        BuiltinAction::SeekForward => 2,
        BuiltinAction::SeekBack => 3,
        BuiltinAction::AddToPlaylistOrNew => 4,
        BuiltinAction::Quit => 5,
        BuiltinAction::ClearQueue => 6,
        BuiltinAction::ToggleScan => 7,
        BuiltinAction::ToggleShuffle => 8,
        BuiltinAction::Update => 9,
        BuiltinAction::CyclePaneLayout => 10,
        BuiltinAction::CyclePlacement => 11,
        BuiltinAction::Enqueue => 12,
        BuiltinAction::Wedge => 13,
        BuiltinAction::Like => 14,
        BuiltinAction::SwitchPlaylists => 15,
        BuiltinAction::OpenHelp => 16,
        BuiltinAction::RevealPlaying => 17,
        BuiltinAction::ToggleLog => 18,
        BuiltinAction::ToggleSettings => 19,
        BuiltinAction::ToggleVis => 20,
        BuiltinAction::ToggleQueue => 21,
        BuiltinAction::ToggleHistory => 22,
        BuiltinAction::ShowHistory => 23,
        BuiltinAction::Link => 24,
        BuiltinAction::Unlink => 25,
        BuiltinAction::PlayPause => 26,
        BuiltinAction::ExportPlaylist => 27,
        BuiltinAction::PromptSearch => 28,
        BuiltinAction::PromptAddToPlaylist => 29,
        BuiltinAction::PromptOpen => 30,
        BuiltinAction::PromptExport => 31,
        BuiltinAction::PromptWindow => 32,
        BuiltinAction::PromptPanes => 33,
    }
}

/// Every action is in the list, where its position says.
pub proof fn every_action_is_listed(a: BuiltinAction)
    ensures
        0 <= action_position(a) < all_actions().len(),
        all_actions()[action_position(a)] == a,
{
}

/// An action and its default key give each other.
pub proof fn default_keys_are_distinct(a: BuiltinAction, key: char)
    ensures
        default_key_of(a) == Some(key) <==> action_of_key(key) == Some(a),
{
}

/// No two actions have the same name.
pub proof fn action_ids_are_distinct(a: BuiltinAction, b: BuiltinAction)
    requires
        action_id(a) == action_id(b),
    ensures
        a == b,
{
    reveal_strlit("next");
    reveal_strlit("previous");
    reveal_strlit("seek-forward");
    reveal_strlit("seek-back");
    reveal_strlit("add-to-playlist");
    reveal_strlit("quit");
    reveal_strlit("clear-queue");
    reveal_strlit("toggle-scan");
    reveal_strlit("toggle-shuffle");
    reveal_strlit("update");
    reveal_strlit("cycle-panes");
    reveal_strlit("cycle-placement");
    reveal_strlit("enqueue");
    reveal_strlit("wedge");
    reveal_strlit("like");
    reveal_strlit("switch-playlists");
    reveal_strlit("open-help");
    reveal_strlit("reveal-playing");
    reveal_strlit("toggle-log");
    reveal_strlit("toggle-settings");
    reveal_strlit("toggle-vis");
    reveal_strlit("toggle-queue");
    reveal_strlit("toggle-history");
    reveal_strlit("show-history");
    reveal_strlit("link");
    reveal_strlit("unlink");
    reveal_strlit("play-pause");
    reveal_strlit("export-playlist");
    reveal_strlit("prompt-search");
    reveal_strlit("prompt-add-to-playlist");
    reveal_strlit("prompt-open");
    reveal_strlit("prompt-export");
    reveal_strlit("prompt-window");
    reveal_strlit("prompt-panes");
    let s = action_id(a);
    let t = action_id(b);
    assert(s.len() == t.len());
    assert(s[0] == t[0]);
    assert(s.len() > 7 ==> s[7] == t[7] && s[s.len() - 1] == t[t.len() - 1]);
    assert(s.len() > 8 ==> s[8] == t[8]);
}

impl BuiltinAction {
    /// Every action, in the order in which they are listed.
    pub fn all() -> (r: Vec<BuiltinAction>)
        ensures
            r@ == all_actions(),
    {
        vec![
            BuiltinAction::Next,
            BuiltinAction::Previous,
            BuiltinAction::SeekForward,
            BuiltinAction::SeekBack,
            BuiltinAction::AddToPlaylistOrNew,
            BuiltinAction::Quit,
            BuiltinAction::ClearQueue,
            BuiltinAction::ToggleScan,
            BuiltinAction::ToggleShuffle,
            BuiltinAction::Update,
            BuiltinAction::CyclePaneLayout,
            BuiltinAction::CyclePlacement,
            BuiltinAction::Enqueue,
            BuiltinAction::Wedge,
            BuiltinAction::Like,
            BuiltinAction::SwitchPlaylists,
            BuiltinAction::OpenHelp,
            BuiltinAction::RevealPlaying,
            BuiltinAction::ToggleLog,
            BuiltinAction::ToggleSettings,
            BuiltinAction::ToggleVis,
            BuiltinAction::ToggleQueue,
            BuiltinAction::ToggleHistory,
            BuiltinAction::ShowHistory,
            BuiltinAction::Link,
            BuiltinAction::Unlink,
            BuiltinAction::PlayPause,
            BuiltinAction::ExportPlaylist,
            BuiltinAction::PromptSearch,
            BuiltinAction::PromptAddToPlaylist,
            BuiltinAction::PromptOpen,
            BuiltinAction::PromptExport,
            BuiltinAction::PromptWindow,
            BuiltinAction::PromptPanes,
        ]
    }

    /// The key of this action that nothing has moved, if it has one.
    pub fn default_key(self) -> (r: Option<char>)
        ensures
            r == default_key_of(self),
    {
        match self {
            BuiltinAction::Next => Some('n'),
            BuiltinAction::Previous => Some('p'),
            BuiltinAction::SeekForward => Some('.'),
            BuiltinAction::SeekBack => Some(','),
            BuiltinAction::AddToPlaylistOrNew => Some('+'),
            BuiltinAction::Quit => Some('Q'),
            BuiltinAction::ClearQueue => Some('E'),
            BuiltinAction::ToggleScan => Some('B'),
            BuiltinAction::ToggleShuffle => Some('s'),
            BuiltinAction::CyclePaneLayout => Some('P'),
            BuiltinAction::CyclePlacement => Some('M'),
            BuiltinAction::Enqueue => Some('q'),
            BuiltinAction::Wedge => Some('w'),
            BuiltinAction::Like => Some('l'),
            BuiltinAction::SwitchPlaylists => Some('`'),
            BuiltinAction::OpenHelp => Some('?'),
            BuiltinAction::RevealPlaying => Some('0'),
            BuiltinAction::PlayPause => Some(' '),
            BuiltinAction::ExportPlaylist => Some('x'),
            BuiltinAction::PromptOpen => Some('o'),
            _ => None,
        }
    }

    /// The action whose default a key is.
    pub fn of_key(key: char) -> (r: Option<BuiltinAction>)
        ensures
            r == action_of_key(key),
    {
        match key {
            'n' => Some(BuiltinAction::Next),
            'p' => Some(BuiltinAction::Previous),
            '.' => Some(BuiltinAction::SeekForward),
            ',' => Some(BuiltinAction::SeekBack),
            '+' => Some(BuiltinAction::AddToPlaylistOrNew),
            'Q' => Some(BuiltinAction::Quit),
            'E' => Some(BuiltinAction::ClearQueue),
            'B' => Some(BuiltinAction::ToggleScan),
            's' => Some(BuiltinAction::ToggleShuffle),
            'P' => Some(BuiltinAction::CyclePaneLayout),
            'M' => Some(BuiltinAction::CyclePlacement),
            'q' => Some(BuiltinAction::Enqueue),
            'w' => Some(BuiltinAction::Wedge),
            'l' => Some(BuiltinAction::Like),
            '`' => Some(BuiltinAction::SwitchPlaylists),
            '?' => Some(BuiltinAction::OpenHelp),
            '0' => Some(BuiltinAction::RevealPlaying),
            ' ' => Some(BuiltinAction::PlayPause),
            'x' => Some(BuiltinAction::ExportPlaylist),
            'o' => Some(BuiltinAction::PromptOpen),
            _ => None,
        }
    }

    /// The name of this action.
    pub fn id(self) -> (r: &'static str)
        ensures
            r@ == action_id(self),
    {
        match self {
            BuiltinAction::Next => "next",
            BuiltinAction::Previous => "previous",
            BuiltinAction::SeekForward => "seek-forward",
            BuiltinAction::SeekBack => "seek-back",
            BuiltinAction::AddToPlaylistOrNew => "add-to-playlist",
            BuiltinAction::Quit => "quit",
            BuiltinAction::ClearQueue => "clear-queue",
            BuiltinAction::ToggleScan => "toggle-scan",
            BuiltinAction::ToggleShuffle => "toggle-shuffle",
            BuiltinAction::Update => "update",
            BuiltinAction::CyclePaneLayout => "cycle-panes",
            BuiltinAction::CyclePlacement => "cycle-placement",
            BuiltinAction::Enqueue => "enqueue",
            BuiltinAction::Wedge => "wedge",
            BuiltinAction::Like => "like",
            BuiltinAction::SwitchPlaylists => "switch-playlists",
            BuiltinAction::OpenHelp => "open-help",
            BuiltinAction::RevealPlaying => "reveal-playing",
            BuiltinAction::ToggleLog => "toggle-log",
            BuiltinAction::ToggleSettings => "toggle-settings",
            BuiltinAction::ToggleVis => "toggle-vis",
            BuiltinAction::ToggleQueue => "toggle-queue",
            BuiltinAction::ToggleHistory => "toggle-history",
            BuiltinAction::ShowHistory => "show-history",
            BuiltinAction::Link => "link",
            BuiltinAction::Unlink => "unlink",
            BuiltinAction::PlayPause => "play-pause",
            BuiltinAction::ExportPlaylist => "export-playlist",
            BuiltinAction::PromptSearch => "prompt-search",
            BuiltinAction::PromptAddToPlaylist => "prompt-add-to-playlist",
            BuiltinAction::PromptOpen => "prompt-open",
            BuiltinAction::PromptExport => "prompt-export",
            BuiltinAction::PromptWindow => "prompt-window",
            BuiltinAction::PromptPanes => "prompt-panes",
        }
    }

    /// The action of a name.
    pub fn from_id(id: &str) -> (r: Option<BuiltinAction>)
        ensures
            match r {
                Some(a) => action_id(a) == id@,
                None => forall|a: BuiltinAction| #[trigger] action_id(a) != id@,
            },
    {
        let all = BuiltinAction::all();
        let mut i: usize = 0;
        while i < all.len()
            invariant
                all@ == all_actions(),
                i <= all@.len(),
                forall|j: int| 0 <= j < i ==> action_id(#[trigger] all@[j]) != id@,
            decreases all@.len() - i,
        {
            if same_text(all[i].id(), id) {
                return Some(all[i]);
            }
            i = i + 1;
        }
        proof {
            assert forall|a: BuiltinAction| #[trigger] action_id(a) != id@ by {
                every_action_is_listed(a);
                assert(all@[action_position(a)] == a);
            }
        }
        None
    }
}

} // verus!
