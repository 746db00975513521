//! The rules behind the player's commands: which lyrics win, what a scan does
//! with a file, when a plugin may be installed, what the interface is told.

pub mod big;
pub mod decimal;
pub mod digest;
pub mod double;
pub mod error;
pub mod lyrics;
pub mod lyrics_format;
pub mod lyrics_prefetch;
pub mod lyrics_providers;
pub mod lyrics_radio;
pub mod lyrics_replies;
pub mod lyrics_save;
pub mod lyrics_sidecar;
pub mod lyrics_stamp;
pub mod lyrics_stamp_dsf;
pub mod lyrics_sync;
pub mod lyrics_tags;
pub mod lyrics_waterfall;
pub mod maintenance;
pub mod media_file;
pub mod mood_radio;
pub mod motion_artwork;
pub mod player;
pub mod player_audio;
pub mod playlist;
pub mod playlist_m3u;
pub mod plugin_store;
pub mod plugins;
pub mod preferences;
pub mod profile;
pub mod ready;
pub mod remote_auth;
pub mod renderer;
pub mod scan;
pub mod scan_track;
pub mod server_auth;
pub mod settings;
pub mod share;
pub mod similar;
pub mod smart_playlists;
pub mod text;
pub mod text_map;
pub mod ttml_time;
