//! Medley: the source-agnostic engine of a terminal music player.

#![allow(unused_imports)]

pub mod actions;
pub mod add_files;
pub mod audio;
pub mod cache_laws;
pub mod catalog;
pub mod command;
pub mod command_laws;
pub mod config;
pub mod data_laws;
pub mod dispatch;
pub mod embedding;
pub mod enqueue;
pub mod env;
pub mod event;
pub mod event_laws;
pub mod exchange;
pub mod exchange_laws;
pub mod fmp4;
pub mod folders;
pub mod history;
pub mod hotkeys;
pub mod http;
pub mod idmap;
pub mod ids;
pub mod library_laws;
pub mod listing_laws;
pub mod log_laws;
pub mod import;
pub mod index_ingest;
pub mod key_laws;
pub mod logbuf;
pub mod logging;
pub mod m3u_laws;
pub mod match_laws;
pub mod matcher;
pub mod media_cache;
pub mod media_keys;
pub mod membership;
pub mod moment;
pub mod name_laws;
pub mod names;
pub mod order_laws;
pub mod paged;
pub mod pct;
pub mod playback;
pub mod playback_laws;
pub mod player;
pub mod player_events;
pub mod playing_laws;
pub mod playlist_laws;
pub mod playlist_m3u;
pub mod plugin;
pub mod plugin_commands;
pub mod producer;
pub mod queue;
pub mod queue_laws;
pub mod ranges;
pub mod rate_limit;
pub mod remote;
pub mod remote_laws;
pub mod resolver;
pub mod resolver_laws;
pub mod revised;
pub mod row_laws;
pub mod scan;
pub mod scan_laws;
pub mod search;
pub mod session;
pub mod session_events;
pub mod session_info;
pub mod session_keys;
pub mod session_laws;
pub mod session_remote;
pub mod session_views;
pub mod setting_laws;
pub mod shown_laws;
pub mod startup;
pub mod state;
pub mod state_doc;
pub mod state_text;
pub mod store;
pub mod stream;
pub mod stream_laws;
pub mod streaming;
pub mod strmap;
pub mod text;
pub mod title;
pub mod traits;
pub mod types;
pub mod update;
pub mod view_cache;
pub mod walk_laws;
pub mod warnings;
pub mod waveform;
pub mod worker;
pub mod worker_laws;

pub use actions::BuiltinAction;
pub use audio::audio_ext;
pub use catalog::Catalog;
pub use command::{Command, Dispatch};
pub use config::{
    expand_home, tilde, Axis, BpmScanConfig, Config, HttpConfig, Layout, PaneLayoutConfig, PaneMode, ScanConfig, Side,
    SoulseekConfig, SoundcloudConfig, SpotifyConfig, VisConfig,
};
pub use event::{Bus, CoreEvent, MembershipOutcome, PlayerEvent};
pub use hotkeys::HotkeyTarget;
pub use logbuf::LogBuf;
pub use matcher::Matcher;
pub use media_cache::MediaCache;
pub use names::parse_artist_title;
pub use paged::{PagedList, RemotePage};
pub use player::NullPlayer;
pub use playlist_m3u::{parse_m3u, write_m3u, M3uDoc, M3uEntry, ParsedRendition, PlaylistMeta, SoftMeta};
pub use plugin::{PluginCommand, PluginHealth, SetupLog, SetupPrompt};
pub use queue::{Queue, RepeatSetting};
pub use rate_limit::{RateGate, RateLimiter};
pub use resolver::{is_local_source, local_path_from_uri, Resolution, Resolver, Target};
pub use scan::{Outcome, ScanDriver, ScanMode, ScanStatus, TrackMeta};
pub use search::Search;
pub use session::{HotkeyMembership, Session};
pub use session_info::PLUGIN_HEALTH_CHECK_INTERVAL;
pub use session_keys::BindError;
pub use session_views::{LastPlayed, ListRef};
pub use store::MemStore;
pub use stream::{Intent, Stopped, StreamInfo, StreamState};
pub use traits::{BrowseNode, BrowsePage, Error, PlayerState, PlayerStatus};
pub use types::{ItemKind, LinkReason, Playlist, PlaylistId, Quality, Rendition, SearchQuery, SourceId, Track, TrackId};
pub use view_cache::{PendingRows, ResultSet};
