# waveflow_commands

The rules behind the commands of the WaveFlow music player, written in Verus:
every executable function states what it returns or changes, and the statement is
proved.

- `src/` is the library. It holds no files, no network and no database: what was
  read comes in as plain values, and what is to be written goes out as plain
  values.
  - `text`, `decimal`, `big`, `double`, `text_map`, `digest`, `error`, `settings`: the
    ground that the rest stands on.
  - `lyrics*`, `ttml_time`: how lyrics are recognised, found, cached, edited and
    written into files.
  - `scan`, `scan_track`: what a scan of a folder skips, writes and tells.
  - `player`, `player_audio`, `mood_radio`, `similar`, `motion_artwork`: playback
    and what is shown with it.
  - `playlist`, `playlist_m3u`, `smart_playlists`, `share`: playlists, list files
    and links to them.
  - `plugins`, `plugin_store`: plugins and where they come from.
  - `profile`, `preferences`, `maintenance`, `ready`, `renderer`, `server_auth`,
    `remote_auth`, `media_file`: the rest of the player's commands.
- `tests/` runs the library, with the crates that it calls.
- `app/` is the ordinary side: it reads and writes, and asks the library what.

What a command does over time is a state and a step: `lyrics_waterfall::Waterfall`,
`lyrics_prefetch::Step`, `scan::Scan`, `plugin_store::RegistryFetch` and
`preferences::ChromeChange` say what is to be done next, and `app/` does it and
hands back what came of it.

Calls into other crates stand behind small functions whose doc comments say what is
taken for granted of them: hashing, regular expressions, XML, JSON lists, tags of
audio files, archives, form encoding and random identifiers.
