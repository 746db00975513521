//! What the player shows and does.

use waveflow_commands::error::AppError;
use waveflow_commands::player::{
    cover_file, current_ab_loop, ends_session, player_clear_ab_loop, player_cycle_repeat,
    player_get_queue, player_get_state, player_jump_to_index, player_list_output_devices,
    player_next, player_play_tracks, player_resume_last, player_set_ab_loop, player_toggle_shuffle,
    queue_track_to_payload_with_paths, restarts_track, schedule_now_playing, tray_tooltip,
    CoverPaths, LivePlayback, LoopPoints, OutputDevice, QueueOrder, QueueTrack, RepeatMode,
    StoredPlayback,
};
use waveflow_commands::player_audio::{
    player_get_audio_settings, player_set_crossfade, player_set_output_device,
    player_set_wasapi_exclusive, restore_audio, restore_crossfade, restore_switch, turn_switch,
    AudioState, AudioSwitch, StoredAudio,
};
use waveflow_commands::settings::{SettingWrite, ValueKind};

fn some(s: &str) -> Option<String> {
    Some(s.to_owned())
}

fn track(id: i64) -> QueueTrack {
    QueueTrack {
        id,
        title: "Song".to_owned(),
        artist_id: None,
        artist_name: some("One"),
        artist_ids: None,
        album_title: None,
        duration_ms: 61_000,
        file_path: "/m/a.flac".to_owned(),
        artwork_hash: some("abc"),
        artwork_format: some("jpg"),
        bitrate: None,
        sample_rate: None,
        channels: None,
        bit_depth: None,
        codec: None,
        file_size: 9,
    }
}

fn live(state: &str, position_ms: u64, track_id: i64) -> LivePlayback {
    LivePlayback {
        state: state.to_owned(),
        position_ms,
        volume_bits: 0x3f80_0000,
        sample_rate: 44_100,
        channels: 2,
        track_id,
    }
}

#[test]
fn a_cover_needs_a_hash_a_format_and_a_profile() {
    let c = cover_file(&track(1), Some(4)).unwrap();
    assert_eq!(c.name, "abc.jpg");
    assert_eq!(c.hash, "abc");
    assert_eq!(c.profile_id, 4);
    assert!(cover_file(&track(1), None).is_none());
    let mut bare = track(1);
    bare.artwork_format = None;
    assert!(cover_file(&bare, Some(4)).is_none());
    let p = queue_track_to_payload_with_paths(
        track(1),
        Some(CoverPaths { full: "/c/abc.jpg".to_owned(), small: some("/c/s"), large: None }),
    );
    assert_eq!(p.artwork_path, some("/c/abc.jpg"));
    assert_eq!(p.artwork_path_1x, some("/c/s"));
    assert_eq!(p.artwork_path_2x, None);
    assert_eq!(p.title, "Song");
}

#[test]
fn the_tray_names_what_plays() {
    assert_eq!(tray_tooltip("Song", &some("One")), "Song — One");
    assert_eq!(tray_tooltip("Song", &some("")), "Song");
    assert_eq!(tray_tooltip("Song", &None), "Song");
}

#[test]
fn what_plays_is_announced_while_it_plays() {
    let say = |current, offline, artist: Option<&str>, ms| {
        schedule_now_playing(
            7,
            "Song".to_owned(),
            artist.map(|a| a.to_owned()),
            some("Album"),
            ms,
            current,
            offline,
        )
    };
    let n = say(7, false, Some("One"), 61_999).unwrap();
    assert_eq!(n.artist, "One");
    assert_eq!(n.title, "Song");
    assert_eq!(n.album, some("Album"));
    assert_eq!(n.duration_s, Some(61));
    assert!(say(8, false, Some("One"), 1).is_none());
    assert!(say(7, true, Some("One"), 1).is_none());
    assert!(say(7, false, None, 1).is_none());
    assert!(ends_session(9));
    assert!(!ends_session(11));
}

#[test]
fn modes_go_round() {
    let mut mode = RepeatMode::Off;
    for _ in 0..3 {
        mode = player_cycle_repeat(mode);
    }
    assert_eq!(mode, RepeatMode::Off);
    assert_eq!(player_cycle_repeat(RepeatMode::Off), RepeatMode::All);
    assert_eq!(player_toggle_shuffle(false), (true, QueueOrder::Shuffle));
    assert_eq!(player_toggle_shuffle(true), (false, QueueOrder::Restore));
}

#[test]
fn an_idle_player_shows_where_it_was() {
    let stored = || StoredPlayback {
        shuffle: true,
        repeat_mode: RepeatMode::One,
        resume: Some((track(5), 12_000)),
    };
    let s = player_get_state(live("idle", 0, 0), Some(stored()));
    assert_eq!(s.position_ms, 12_000);
    assert_eq!(s.current_track.map(|t| t.id), Some(5));
    assert!(s.shuffle);
    assert_eq!(s.repeat_mode, RepeatMode::One);
    let s = player_get_state(live("playing", 3, 5), Some(stored()));
    assert_eq!(s.position_ms, 3);
    let s = player_get_state(live("idle", 0, 0), None);
    assert_eq!(s.current_track, None);
    assert!(!s.shuffle);
    assert_eq!(s.volume_bits, 0x3f80_0000);
}

#[test]
fn the_queue_knows_its_place() {
    let q = player_get_queue(Vec::new(), &some("4"), some("album"));
    assert_eq!(q.current_index, 4);
    assert_eq!(q.source_type, some("album"));
    assert_eq!(player_get_queue(Vec::new(), &some("x"), None).current_index, 0);
    assert_eq!(player_get_queue(Vec::new(), &None, None).current_index, 0);
}

#[test]
fn playing_starts_where_it_should() {
    let c = player_jump_to_index(&Some(track(2))).unwrap();
    assert_eq!(c.path, "/m/a.flac");
    assert_eq!(c.start_ms, 0);
    assert_eq!(c.source_type, "manual");
    assert_eq!(c.duration_ms, 61_000);
    assert_eq!(player_jump_to_index(&None), Err(AppError::Other("queue is empty".to_owned())));
    assert_eq!(player_resume_last(&Some((track(2), 9))).unwrap().start_ms, 9);
    assert_eq!(
        player_resume_last(&None),
        Err(AppError::Other("no resume point available".to_owned()))
    );
    let c = player_play_tracks(&Some(track(2)), true, "album", Some(3)).unwrap();
    assert_eq!((c.source_type.as_str(), c.source_id), ("album", Some(3)));
    assert_eq!(
        player_play_tracks(&Some(track(2)), false, "album", None),
        Err(AppError::Audio("file not found: /m/a.flac".to_owned()))
    );
    assert_eq!(
        player_play_tracks(&None, true, "album", None),
        Err(AppError::Other("queue empty after fill".to_owned()))
    );
    assert_eq!(player_next(&Some(track(2))).unwrap().track_id, 2);
    assert!(player_next(&None).is_none());
    let mut backwards = track(2);
    backwards.duration_ms = -1;
    assert_eq!(player_next(&Some(backwards)).unwrap().duration_ms, 0);
    assert!(!restarts_track(3_000));
    assert!(restarts_track(3_001));
}

#[test]
fn a_loop_reads_back() {
    let mut points = LoopPoints { a_ms: u64::MAX, b_ms: u64::MAX };
    let cleared = player_clear_ab_loop(&mut points);
    assert_eq!((cleared.a_ms, cleared.b_ms), (None, None));
    let set = player_set_ab_loop(&mut points, Some(10), Some(20));
    assert_eq!((set.a_ms, set.b_ms), (Some(10), Some(20)));
    let shown = current_ab_loop(&points);
    assert_eq!((shown.a_ms, shown.b_ms), (Some(10), Some(20)));
    let set = player_set_ab_loop(&mut points, Some(5), None);
    assert_eq!((set.a_ms, set.b_ms), (Some(5), None));
    let set = player_set_ab_loop(&mut points, None, Some(30));
    assert_eq!((set.a_ms, set.b_ms), (None, Some(30)));
}

#[test]
fn devices_say_which_is_in_use() {
    let device = |id: &str, is_default| OutputDevice {
        id: id.to_owned(),
        name: id.to_uppercase(),
        is_default,
    };
    let rows = player_list_output_devices(vec![device("a", true), device("b", false)], &some("b"));
    assert!(!rows[0].is_active);
    assert!(rows[1].is_active);
    let rows = player_list_output_devices(vec![device("a", true), device("b", false)], &None);
    assert!(rows[0].is_active);
    assert!(!rows[1].is_active);
}

fn quiet() -> AudioState {
    AudioState {
        normalize: false,
        mono: false,
        replaygain: false,
        gapless: false,
        equalizer: false,
        smart_crossfade: false,
        dynamic_crossfade: false,
        visualizer: false,
        crossfade_ms: 0,
        next_crossfade_ms: 7,
    }
}

#[test]
fn a_turned_switch_is_restored() {
    for s in [
        AudioSwitch::Normalize,
        AudioSwitch::Mono,
        AudioSwitch::ReplayGain,
        AudioSwitch::Gapless,
        AudioSwitch::Equalizer,
        AudioSwitch::SmartCrossfade,
        AudioSwitch::DynamicCrossfade,
        AudioSwitch::Visualizer,
    ] {
        let mut state = quiet();
        match turn_switch(&mut state, s, true) {
            SettingWrite::Put { key, value, kind } => {
                assert_eq!(key, s.key());
                assert_eq!(kind, ValueKind::Bool);
                let mut later = quiet();
                restore_switch(&mut later, s, &Some(value));
                assert_eq!(later, state);
            }
            x => panic!("{x:?}"),
        }
    }
    let mut state = quiet();
    turn_switch(&mut state, AudioSwitch::DynamicCrossfade, false);
    assert_eq!(state.next_crossfade_ms, 0);
    assert_eq!(AudioSwitch::Visualizer.key(), "ui.visualizer");
}

#[test]
fn everything_stored_is_taken_over() {
    let mut state = quiet();
    state.mono = true;
    let stored = StoredAudio {
        normalize: some("true"),
        mono: some("false"),
        replaygain: None,
        gapless: some("TRUE"),
        equalizer: some("true"),
        smart_crossfade: None,
        dynamic_crossfade: some("true"),
        visualizer: some("true"),
        crossfade_ms: some("4294967296"),
    };
    restore_audio(&mut state, &stored);
    assert_eq!(
        state,
        AudioState {
            normalize: true,
            mono: false,
            equalizer: true,
            dynamic_crossfade: true,
            visualizer: true,
            ..quiet()
        }
    );
}

#[test]
fn gapless_is_turned_off_by_false_alone() {
    let mut state = AudioState { gapless: true, mono: true, ..quiet() };
    restore_switch(&mut state, AudioSwitch::Gapless, &some("0"));
    assert!(state.gapless);
    restore_switch(&mut state, AudioSwitch::Mono, &some("0"));
    assert!(!state.mono);
    restore_switch(&mut state, AudioSwitch::Gapless, &some("false"));
    assert!(!state.gapless);
    restore_switch(&mut state, AudioSwitch::Gapless, &some("0"));
    assert!(!state.gapless);
    restore_switch(&mut state, AudioSwitch::Gapless, &some("true"));
    assert!(state.gapless);
}

#[test]
fn a_crossfade_is_kept_in_milliseconds() {
    let (ms, write) = player_set_crossfade(2_500);
    assert_eq!(ms, 2_500);
    match write {
        SettingWrite::Put { key, value, kind } => {
            assert_eq!(key, "audio.crossfade_ms");
            assert_eq!(value, "2500");
            assert_eq!(kind, ValueKind::Int);
            let mut state = quiet();
            restore_crossfade(&mut state, &Some(value.clone()));
            assert_eq!(state.crossfade_ms, 2_500);
            assert_eq!(player_get_audio_settings(&state, &Some(value)).crossfade_ms, 2_500);
        }
        x => panic!("{x:?}"),
    }
    assert_eq!(player_get_audio_settings(&quiet(), &some("soon")).crossfade_ms, 0);
    assert_eq!(player_get_audio_settings(&quiet(), &None).crossfade_ms, 0);
}

#[test]
fn a_device_is_remembered() {
    match player_set_output_device(&some("dev")) {
        SettingWrite::Put { key, value, .. } => {
            assert_eq!(key, "audio.output_device");
            assert_eq!(value, "dev");
        }
        x => panic!("{x:?}"),
    }
    match player_set_wasapi_exclusive(true) {
        SettingWrite::Put { key, value, .. } => {
            assert_eq!(key, "audio.wasapi_exclusive");
            assert_eq!(value, "1");
        }
        x => panic!("{x:?}"),
    }
}
