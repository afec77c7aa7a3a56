//! What a user asks for, what comes of it, and what is left for the program to do.

use vstd::prelude::*;
use crate::hotkeys::HotkeyTarget;
use crate::scan::ScanMode;
use crate::traits::BrowseNode;
use crate::types::{PlaylistId, SourceId, TrackId};
use crate::view_cache::Change;

verus! {

/// What a user asks for.
#[allow(inconsistent_fields)]
pub enum Command {
    Search(String),
    Play(TrackId),
    /// Plays a list from one of its rows on.
    PlayContext {
        tracks: Vec<TrackId>,
        index: usize,
        /// The remote playlist that it is.
        remote: Option<(SourceId, BrowseNode)>,
        /// The playlist that it is.
        local: Option<PlaylistId>,
        name: Option<String>,
    },
    /// Puts a track at the back of the queue.
    Enqueue(TrackId),
    /// Puts a track at the front of the queue.
    Wedge(TrackId),
    PlayPause,
    Next,
    Previous,
    /// By so many milliseconds.
    Seek(i64),
    /// By so many hundredths.
    Volume(i8),
    NewPlaylist(String),
    AddToPlaylist { track: TrackId, playlist: PlaylistId },
    /// Adds a track that a playlist lacks; of one that it holds one row is taken out, or all.
    TogglePlaylistMembership { track: TrackId, playlist: HotkeyTarget, position: Option<usize> },
    /// Picks the first or the second of two tracks to be linked.
    LinkPick(TrackId),
    Unlink(TrackId),
    /// Likes a track, or unlikes one that is liked.
    Like(TrackId),
    ExportM3u(PlaylistId),
    ExportM3uTo { playlist: PlaylistId, path: String },
    ImportM3u(String),
    AddUri(String),
    /// Adds local files to a playlist, or to the queue.
    AddFilesToPlaylist { playlist: Option<PlaylistId>, paths: Vec<String> },
    ClearQueue,
    ToggleScan,
    ToggleShuffle,
    Update,
    Quit,
}

/// What came of a command; a front-end decides how it is shown.
pub enum Dispatch {
    Handled,
    /// The length of the queue after a track was put at its back.
    Queued(usize),
    /// The length of the queue after a track was put at its front.
    Wedged(usize),
    ShuffleSet(bool),
    /// A playlist gained or lost a track.
    MembershipSet { track: String, playlist: String, added: bool },
    ScanMode(ScanMode),
    /// What was done, in words.
    Done(String),
    PlaylistCreated(PlaylistId),
    /// The first of two tracks is picked.
    LinkPending,
    /// Why nothing was done.
    Refused(String),
    Quit,
}

pub enum DispatchView {
    Handled,
    Queued(nat),
    Wedged(nat),
    ShuffleSet(bool),
    MembershipSet { track: Seq<char>, playlist: Seq<char>, added: bool },
    ScanMode(ScanMode),
    Done(Seq<char>),
    PlaylistCreated(PlaylistId),
    LinkPending,
    Refused(Seq<char>),
    Quit,
}

impl View for Dispatch {
    type V = DispatchView;

    open spec fn view(&self) -> DispatchView {
        match self {
            Dispatch::Handled => DispatchView::Handled,
            Dispatch::Queued(n) => DispatchView::Queued(*n as nat),
            Dispatch::Wedged(n) => DispatchView::Wedged(*n as nat),
            Dispatch::ShuffleSet(on) => DispatchView::ShuffleSet(*on),
            Dispatch::MembershipSet { track, playlist, added } => DispatchView::MembershipSet {
                track: track@,
                playlist: playlist@,
                added: *added,
            },
            Dispatch::ScanMode(m) => DispatchView::ScanMode(*m),
            Dispatch::Done(t) => DispatchView::Done(t@),
            Dispatch::PlaylistCreated(id) => DispatchView::PlaylistCreated(*id),
            Dispatch::LinkPending => DispatchView::LinkPending,
            Dispatch::Refused(t) => DispatchView::Refused(t@),
            Dispatch::Quit => DispatchView::Quit,
        }
    }
}

/// What the program does outside. Where it fails, the failure is the answer to the command.
pub enum Request {
    RunSearch { search: u64, query: String },
    TogglePlayer(u32),
    SeekPlayer { player: u32, delta: i64 },
    ChangeVolume(i8),
    ToggleScan,
    Update,
    WriteFile { path: String, text: String },
    /// The file is read and handed to the import.
    ReadPlaylist(String),
    /// The track of an address is looked up.
    ResolveUri(String),
    FindFiles { playlist: Option<PlaylistId>, paths: Vec<String> },
    ChangeRemote {
        source: SourceId,
        node: BrowseNode,
        track: TrackId,
        uri: String,
        change: Change,
        /// An addition goes to the head of the list.
        front: bool,
        /// The list is the one of liked tracks.
        liked: bool,
    },
}

pub enum RequestView {
    RunSearch { search: u64, query: Seq<char> },
    TogglePlayer(u32),
    SeekPlayer { player: u32, delta: i64 },
    ChangeVolume(i8),
    ToggleScan,
    Update,
    WriteFile { path: Seq<char>, text: Seq<char> },
    ReadPlaylist(Seq<char>),
    ResolveUri(Seq<char>),
    FindFiles { playlist: Option<PlaylistId>, paths: Seq<Seq<char>> },
    ChangeRemote {
        source: Seq<char>,
        node: Option<Seq<char>>,
        track: TrackId,
        uri: Seq<char>,
        change: Change,
        front: bool,
        liked: bool,
    },
}

impl View for Request {
    type V = RequestView;

    open spec fn view(&self) -> RequestView {
        match self {
            Request::RunSearch { search, query } => RequestView::RunSearch { search: *search, query: query@ },
            Request::TogglePlayer(p) => RequestView::TogglePlayer(*p),
            Request::SeekPlayer { player, delta } => RequestView::SeekPlayer { player: *player, delta: *delta },
            Request::ChangeVolume(d) => RequestView::ChangeVolume(*d),
            Request::ToggleScan => RequestView::ToggleScan,
            Request::Update => RequestView::Update,
            Request::WriteFile { path, text } => RequestView::WriteFile { path: path@, text: text@ },
            Request::ReadPlaylist(p) => RequestView::ReadPlaylist(p@),
            Request::ResolveUri(u) => RequestView::ResolveUri(u@),
            Request::FindFiles { playlist, paths } => RequestView::FindFiles {
                playlist: *playlist,
                paths: crate::text::str_views(paths@),
            },
            Request::ChangeRemote { source, node, track, uri, change, front, liked } => RequestView::ChangeRemote {
                source: source@,
                node: node@,
                track: *track,
                uri: uri@,
                change: *change,
                front: *front,
                liked: *liked,
            },
        }
    }
}

pub open spec fn request_views(v: Seq<Request>) -> Seq<RequestView> {
    v.map_values(|r: Request| r@)
}

} // verus!
