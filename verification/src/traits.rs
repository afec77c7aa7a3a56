//! Errors, browsing and playback states that every part of the engine shares.

use vstd::prelude::*;
use crate::types::{SourceId, Track};

verus! {

/// What can go wrong.
#[derive(Debug)]
pub enum Error {
    NotFound,
    Store(String),
    Source { src: SourceId, message: String },
    NoSource(String),
    Gap(String),
    Other(String),
    Unsupported(String),
}

/// The message of an error.
pub open spec fn error_message(e: Error) -> Seq<char> {
    match e {
        Error::NotFound => "not found"@,
        Error::Store(m) => "store error: "@ + m@,
        Error::Source { src, message } => "source error ["@ + src@ + "]: "@ + message@,
        Error::NoSource(u) => "no source for uri: "@ + u@,
        Error::Gap(m) => "resolve gap: "@ + m@,
        Error::Other(m) => m@,
        Error::Unsupported(m) => "unsupported: "@ + m@,
    }
}

impl Error {
    pub fn message(&self) -> (r: String)
        ensures
            r@ == error_message(*self),
    {
        match self {
            Error::NotFound => "not found".to_owned(),
            Error::Store(m) => {
                let mut s = "store error: ".to_owned();
                s.append(m);
                s
            },
            Error::Source { src, message } => {
                let mut s = "source error [".to_owned();
                s.append(src.as_str());
                s.append("]: ");
                s.append(message);
                s
            },
            Error::NoSource(u) => {
                let mut s = "no source for uri: ".to_owned();
                s.append(u);
                s
            },
            Error::Gap(m) => {
                let mut s = "resolve gap: ".to_owned();
                s.append(m);
                s
            },
            Error::Other(m) => m.clone(),
            Error::Unsupported(m) => {
                let mut s = "unsupported: ".to_owned();
                s.append(m);
                s
            },
        }
    }
}

/// A place in a source's tree of playlists and folders.
#[derive(PartialEq, Eq, Hash, Debug)]
pub enum BrowseNode {
    Root,
    Path(String),
}

/// What a node is: `None` for the root, or its path.
pub open spec fn node_view(n: BrowseNode) -> Option<Seq<char>> {
    match n {
        BrowseNode::Root => None,
        BrowseNode::Path(p) => Some(p@),
    }
}

impl View for BrowseNode {
    type V = Option<Seq<char>>;

    open spec fn view(&self) -> Option<Seq<char>> {
        node_view(*self)
    }
}

impl Clone for BrowseNode {
    fn clone(&self) -> (r: BrowseNode)
        ensures
            r == *self,
            r@ == self@,
    {
        match self {
            BrowseNode::Root => BrowseNode::Root,
            BrowseNode::Path(p) => BrowseNode::Path(p.clone()),
        }
    }
}

impl BrowseNode {
    pub fn same(&self, other: &BrowseNode) -> (r: bool)
        ensures
            r == (self@ == other@),
    {
        match (self, other) {
            (BrowseNode::Root, BrowseNode::Root) => true,
            (BrowseNode::Path(a), BrowseNode::Path(b)) => *a == *b,
            _ => false,
        }
    }
}

/// One answer of a source to a browse request.
pub struct BrowsePage {
    pub title: String,
    pub tracks: Vec<Track>,
    pub folders: Vec<(String, BrowseNode)>,
    /// Whether `tracks` is a prefix and a later request may give more.
    pub partial: bool,
    /// Whether the list is cut short because a page could not be fetched.
    pub errored: bool,
}

#[derive(Clone, Copy, PartialEq, Eq, Structural, Debug)]
pub enum PlayerState {
    Stopped,
    Playing,
    Paused,
}

/// What a player reports of itself.
#[derive(Clone, Copy, PartialEq, Eq, Structural, Debug)]
pub struct PlayerStatus {
    pub state: PlayerState,
    pub position_ms: u32,
    pub duration_ms: u32,
    /// Playback waits for the download.
    pub buffering: bool,
    /// How much of the track is on disk while it downloads.
    pub download_pct: Option<u8>,
}

impl Default for PlayerStatus {
    fn default() -> (r: PlayerStatus)
        ensures
            r == (PlayerStatus {
                state: PlayerState::Stopped,
                position_ms: 0,
                duration_ms: 0,
                buffering: false,
                download_pct: None,
            }),
    {
        PlayerStatus {
            state: PlayerState::Stopped,
            position_ms: 0,
            duration_ms: 0,
            buffering: false,
            download_pct: None,
        }
    }
}

} // verus!
