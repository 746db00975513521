//! The player's switches: what is stored of them, and what is restored.

use vstd::prelude::*;

use crate::decimal;
use crate::decimal::{i64_text, parse_i64, parse_nat};
use crate::settings;
use crate::settings::{switch_value, SettingWrite, ValueKind};
use crate::text;
use crate::text::same_text;

verus! {

/// Where the length of a crossfade is kept.
pub const CROSSFADE_KEY: &'static str = "audio.crossfade_ms";

/// Where the chosen output device is kept.
pub const OUTPUT_DEVICE_KEY: &'static str = "audio.output_device";

/// Where it is kept whether the device is had exclusively.
pub const WASAPI_EXCLUSIVE_KEY: &'static str = "audio.wasapi_exclusive";

/// A switch of the player.
#[derive(Clone, Copy, PartialEq, Eq, Debug, Structural)]
pub enum AudioSwitch {
    Normalize,
    Mono,
    ReplayGain,
    Gapless,
    Equalizer,
    SmartCrossfade,
    DynamicCrossfade,
    Visualizer,
}

/// Where a switch is kept.
pub open spec fn switch_key(s: AudioSwitch) -> Seq<char> {
    match s {
        AudioSwitch::Normalize => "audio.normalize"@,
        AudioSwitch::Mono => "audio.mono"@,
        AudioSwitch::ReplayGain => "audio.replaygain"@,
        AudioSwitch::Gapless => "audio.gapless"@,
        AudioSwitch::Equalizer => "audio.eq_enabled"@,
        AudioSwitch::SmartCrossfade => "audio.smart_crossfade"@,
        AudioSwitch::DynamicCrossfade => "audio.dynamic_crossfade"@,
        AudioSwitch::Visualizer => "ui.visualizer"@,
    }
}

impl AudioSwitch {
    /// Where the switch is kept.
    pub fn key(self) -> (r: &'static str)
        ensures
            r@ == switch_key(self),
    {
        match self {
            AudioSwitch::Normalize => "audio.normalize",
            AudioSwitch::Mono => "audio.mono",
            AudioSwitch::ReplayGain => "audio.replaygain",
            AudioSwitch::Gapless => "audio.gapless",
            AudioSwitch::Equalizer => "audio.eq_enabled",
            AudioSwitch::SmartCrossfade => "audio.smart_crossfade",
            AudioSwitch::DynamicCrossfade => "audio.dynamic_crossfade",
            AudioSwitch::Visualizer => "ui.visualizer",
        }
    }
}

/// What the engine goes by.
#[derive(Clone, Copy, PartialEq, Eq, Debug, Structural)]
pub struct AudioState {
    pub normalize: bool,
    pub mono: bool,
    pub replaygain: bool,
    pub gapless: bool,
    pub equalizer: bool,
    pub smart_crossfade: bool,
    pub dynamic_crossfade: bool,
    pub visualizer: bool,
    pub crossfade_ms: u32,
    /// The length of the next crossfade alone; zero where it has none of its own.
    pub next_crossfade_ms: u32,
}

impl AudioState {
    /// A switch's state.
    pub open spec fn switch(self, s: AudioSwitch) -> bool {
        match s {
            AudioSwitch::Normalize => self.normalize,
            AudioSwitch::Mono => self.mono,
            AudioSwitch::ReplayGain => self.replaygain,
            AudioSwitch::Gapless => self.gapless,
            AudioSwitch::Equalizer => self.equalizer,
            AudioSwitch::SmartCrossfade => self.smart_crossfade,
            AudioSwitch::DynamicCrossfade => self.dynamic_crossfade,
            AudioSwitch::Visualizer => self.visualizer,
        }
    }

    /// The state with one switch set.
    pub open spec fn with(self, s: AudioSwitch, on: bool) -> AudioState {
        match s {
            AudioSwitch::Normalize => AudioState { normalize: on, ..self },
            AudioSwitch::Mono => AudioState { mono: on, ..self },
            AudioSwitch::ReplayGain => AudioState { replaygain: on, ..self },
            AudioSwitch::Gapless => AudioState { gapless: on, ..self },
            AudioSwitch::Equalizer => AudioState { equalizer: on, ..self },
            AudioSwitch::SmartCrossfade => AudioState { smart_crossfade: on, ..self },
            AudioSwitch::DynamicCrossfade => AudioState { dynamic_crossfade: on, ..self },
            AudioSwitch::Visualizer => AudioState { visualizer: on, ..self },
        }
    }

    /// The state after a switch was turned: a crossfade that was prepared for the
    /// next track is dropped with the switch that it hangs on.
    pub open spec fn turned(self, s: AudioSwitch, on: bool) -> AudioState {
        if s == AudioSwitch::DynamicCrossfade && !on {
            AudioState { next_crossfade_ms: 0, ..self.with(s, on) }
        } else {
            self.with(s, on)
        }
    }

    fn put(&mut self, s: AudioSwitch, on: bool)
        ensures
            *final(self) == old(self).with(s, on),
    {
        match s {
            AudioSwitch::Normalize => {
                self.normalize = on;
            },
            AudioSwitch::Mono => {
                self.mono = on;
            },
            AudioSwitch::ReplayGain => {
                self.replaygain = on;
            },
            AudioSwitch::Gapless => {
                self.gapless = on;
            },
            AudioSwitch::Equalizer => {
                self.equalizer = on;
            },
            AudioSwitch::SmartCrossfade => {
                self.smart_crossfade = on;
            },
            AudioSwitch::DynamicCrossfade => {
                self.dynamic_crossfade = on;
            },
            AudioSwitch::Visualizer => {
                self.visualizer = on;
            },
        }
    }
}

/// Turn a switch, with what is stored of it.
pub fn turn_switch(state: &mut AudioState, s: AudioSwitch, on: bool) -> (w: SettingWrite)
    ensures
        *final(state) == old(state).turned(s, on),
        w@ == (settings::SettingNote::Put {
            key: switch_key(s),
            value: settings::switch_text(on),
            kind: ValueKind::Bool,
        }),
{
    state.put(s, on);
    if s == AudioSwitch::DynamicCrossfade && !on {
        state.next_crossfade_ms = 0;
    }
    SettingWrite::Put {
        key: s.key().to_owned(),
        value: switch_value(on).to_owned(),
        kind: ValueKind::Bool,
    }
}

/// What a stored switch is: what the text says, and what it was where nothing is
/// stored. Gapless playback, which is on to begin with, is turned off by an outright
/// "false" alone: a text that says neither leaves it as it was.
pub open spec fn switch_restored(s: AudioSwitch, was: bool, stored: Option<Seq<char>>) -> bool {
    match stored {
        Some(v) => if s == AudioSwitch::Gapless && v != "false"@ {
            was || v == "true"@
        } else {
            v == "true"@
        },
        None => was,
    }
}

/// Take over what is stored of a switch.
pub fn restore_switch(state: &mut AudioState, s: AudioSwitch, stored: &Option<String>)
    ensures
        *final(state) == old(state).with(
            s,
            switch_restored(s, old(state).switch(s), text::opt_text(*stored)),
        ),
{
    if let Some(v) = stored {
        let on = same_text(v.as_str(), "true");
        if s != AudioSwitch::Gapless || on || same_text(v.as_str(), "false") {
            state.put(s, on);
        }
    }
}

/// The length of a crossfade that is stored, where it is one.
pub open spec fn crossfade_restored(was: u32, stored: Option<Seq<char>>) -> u32 {
    match stored {
        Some(v) => match decimal::nat_named(v) {
            Some(n) if n <= u32::MAX => n as u32,
            _ => was,
        },
        None => was,
    }
}

/// Take over what is stored of the crossfade.
pub fn restore_crossfade(state: &mut AudioState, stored: &Option<String>)
    ensures
        *final(state) == (AudioState {
            crossfade_ms: crossfade_restored(old(state).crossfade_ms, text::opt_text(*stored)),
            ..*old(state)
        }),
{
    if let Some(v) = stored {
        if let Some(n) = parse_nat(v.as_str(), u32::MAX as u64) {
            state.crossfade_ms = n as u32;
        }
    }
}

/// What a profile has stored of the player's settings.
#[derive(PartialEq, Eq, Debug)]
pub struct StoredAudio {
    pub normalize: Option<String>,
    pub mono: Option<String>,
    pub replaygain: Option<String>,
    pub gapless: Option<String>,
    pub equalizer: Option<String>,
    pub smart_crossfade: Option<String>,
    pub dynamic_crossfade: Option<String>,
    pub visualizer: Option<String>,
    pub crossfade_ms: Option<String>,
}

/// The state once everything that a profile has stored is taken over. A crossfade
/// that was prepared for the next track stays.
pub open spec fn audio_restored(was: AudioState, stored: StoredAudio) -> AudioState {
    AudioState {
        normalize: switch_restored(
            AudioSwitch::Normalize,
            was.normalize,
            text::opt_text(stored.normalize),
        ),
        mono: switch_restored(
            AudioSwitch::Mono,
            was.mono,
            text::opt_text(stored.mono),
        ),
        replaygain: switch_restored(
            AudioSwitch::ReplayGain,
            was.replaygain,
            text::opt_text(stored.replaygain),
        ),
        gapless: switch_restored(
            AudioSwitch::Gapless,
            was.gapless,
            text::opt_text(stored.gapless),
        ),
        equalizer: switch_restored(
            AudioSwitch::Equalizer,
            was.equalizer,
            text::opt_text(stored.equalizer),
        ),
        smart_crossfade: switch_restored(
            AudioSwitch::SmartCrossfade,
            was.smart_crossfade,
            text::opt_text(stored.smart_crossfade),
        ),
        dynamic_crossfade: switch_restored(
            AudioSwitch::DynamicCrossfade,
            was.dynamic_crossfade,
            text::opt_text(stored.dynamic_crossfade),
        ),
        visualizer: switch_restored(
            AudioSwitch::Visualizer,
            was.visualizer,
            text::opt_text(stored.visualizer),
        ),
        crossfade_ms: crossfade_restored(was.crossfade_ms, text::opt_text(stored.crossfade_ms)),
        next_crossfade_ms: was.next_crossfade_ms,
    }
}

/// Take over everything that a profile has stored of the player's settings.
pub fn restore_audio(state: &mut AudioState, stored: &StoredAudio)
    ensures
        *final(state) == audio_restored(*old(state), *stored),
{
    restore_switch(state, AudioSwitch::Normalize, &stored.normalize);
    restore_switch(state, AudioSwitch::Mono, &stored.mono);
    restore_crossfade(state, &stored.crossfade_ms);
    restore_switch(state, AudioSwitch::ReplayGain, &stored.replaygain);
    restore_switch(state, AudioSwitch::Gapless, &stored.gapless);
    restore_switch(state, AudioSwitch::Equalizer, &stored.equalizer);
    restore_switch(state, AudioSwitch::SmartCrossfade, &stored.smart_crossfade);
    restore_switch(state, AudioSwitch::DynamicCrossfade, &stored.dynamic_crossfade);
    restore_switch(state, AudioSwitch::Visualizer, &stored.visualizer);
}

/// A switch that was turned is restored as it was turned, and no other switch
/// with it.
pub proof fn a_turned_switch_is_restored(
    settings: Map<Seq<char>, Seq<char>>,
    s: AudioSwitch,
    other: AudioSwitch,
    on: bool,
    was: bool,
)
    ensures
        switch_restored(
            s,
            was,
            settings::setting(
                settings::settings_after(
                    settings,
                    settings::SettingNote::Put {
                        key: switch_key(s),
                        value: settings::switch_text(on),
                        kind: ValueKind::Bool,
                    },
                ),
                switch_key(s),
            ),
        ) == on,
        s != other ==> switch_key(s) != switch_key(other),
{
    reveal_strlit("true");
    reveal_strlit("false");
    assert("true"@.len() == 4);
    assert("false"@.len() == 5);
    reveal_strlit("audio.normalize");
    reveal_strlit("audio.mono");
    reveal_strlit("audio.replaygain");
    reveal_strlit("audio.gapless");
    reveal_strlit("audio.eq_enabled");
    reveal_strlit("audio.smart_crossfade");
    reveal_strlit("audio.dynamic_crossfade");
    reveal_strlit("ui.visualizer");
    assert("audio.normalize"@[6] == 'n');
    assert("audio.mono"@[6] == 'm');
    assert("audio.replaygain"@[6] == 'r');
    assert("audio.gapless"@[6] == 'g');
    assert("audio.eq_enabled"@[6] == 'e');
    assert("audio.smart_crossfade"@[6] == 's');
    assert("audio.dynamic_crossfade"@[6] == 'd');
    assert("ui.visualizer"@[0] == 'u');
    assert("audio.normalize"@[0] == 'a');
    assert("audio.mono"@[0] == 'a');
    assert("audio.replaygain"@[0] == 'a');
    assert("audio.gapless"@[0] == 'a');
    assert("audio.eq_enabled"@[0] == 'a');
    assert("audio.smart_crossfade"@[0] == 'a');
    assert("audio.dynamic_crossfade"@[0] == 'a');
}

/// What is stored of the length of a crossfade, and what the engine is told: a
/// length below zero counts as none, and the engine takes the lowest thirty-two
/// binary digits.
pub fn player_set_crossfade(ms: i64) -> (r: (u32, SettingWrite))
    ensures
        ms < 0 ==> r.0 == 0,
        ms >= 0 ==> r.0 == (ms as int) % 0x1_0000_0000,
        r.1@ == (settings::SettingNote::Put {
            key: "audio.crossfade_ms"@,
            value: decimal::int_text(ms as int),
            kind: ValueKind::Int,
        }),
{
    let length: u64 = if ms < 0 {
        0
    } else {
        ms as u64
    };
    let told: u32 = (length % 0x1_0000_0000) as u32;
    (
        told,
        SettingWrite::Put {
            key: CROSSFADE_KEY.to_owned(),
            value: i64_text(ms),
            kind: ValueKind::Int,
        },
    )
}

/// The switches of the settings screen, as the interface is told them.
#[derive(Clone, Copy, PartialEq, Eq, Debug, Structural)]
pub struct AudioSettingsSnapshot {
    pub normalize: bool,
    pub mono: bool,
    pub crossfade_ms: i64,
    pub replaygain: bool,
    pub gapless: bool,
}

/// The length of a crossfade that the settings screen shows: none where what is
/// stored is no length.
pub open spec fn crossfade_shown(stored: Option<Seq<char>>) -> int {
    match stored {
        Some(v) => match decimal::int_within(v, i64::MIN as int, i64::MAX as int) {
            Some(n) => n,
            None => 0,
        },
        None => 0,
    }
}

/// The switches of the settings screen, as the interface is told them.
pub fn player_get_audio_settings(state: &AudioState, stored_crossfade: &Option<String>) -> (r:
    AudioSettingsSnapshot)
    ensures
        r.normalize == state.normalize,
        r.mono == state.mono,
        r.replaygain == state.replaygain,
        r.gapless == state.gapless,
        r.crossfade_ms == crossfade_shown(text::opt_text(*stored_crossfade)),
{
    let mut crossfade_ms: i64 = 0;
    if let Some(v) = stored_crossfade {
        if let Some(n) = parse_i64(v.as_str()) {
            crossfade_ms = n;
        }
    }
    AudioSettingsSnapshot {
        normalize: state.normalize,
        mono: state.mono,
        crossfade_ms,
        replaygain: state.replaygain,
        gapless: state.gapless,
    }
}

/// The crossfade that was set is the one that the settings screen shows.
pub proof fn a_set_crossfade_is_shown(ms: i64)
    ensures
        crossfade_shown(Some(decimal::int_text(ms as int))) == ms,
        0 <= ms <= u32::MAX ==> crossfade_restored(0, Some(decimal::int_text(ms as int))) == ms,
{
    decimal::a_written_number_reads_back(ms as int);
}

/// What is stored of the chosen output device: nothing stands for the system's
/// own.
pub fn player_set_output_device(device_id: &Option<String>) -> (w: SettingWrite)
    ensures
        w@ == (settings::SettingNote::Put {
            key: "audio.output_device"@,
            value: match text::opt_text(*device_id) {
                Some(id) => id,
                None => seq![],
            },
            kind: ValueKind::Text,
        }),
{
    let value = match device_id {
        Some(id) => id.clone(),
        None => String::new(),
    };
    SettingWrite::Put { key: OUTPUT_DEVICE_KEY.to_owned(), value, kind: ValueKind::Text }
}

/// What is stored of whether the device is had exclusively.
pub fn player_set_wasapi_exclusive(enabled: bool) -> (w: SettingWrite)
    ensures
        w@ == (settings::SettingNote::Put {
            key: "audio.wasapi_exclusive"@,
            value: if enabled {
                "1"@
            } else {
                "0"@
            },
            kind: ValueKind::Bool,
        }),
{
    let value = if enabled {
        "1"
    } else {
        "0"
    };
    SettingWrite::Put {
        key: WASAPI_EXCLUSIVE_KEY.to_owned(),
        value: value.to_owned(),
        kind: ValueKind::Bool,
    }
}

/// The switches are kept under these keys.
pub proof fn switches_have_these_keys()
    ensures
        switch_key(AudioSwitch::Normalize) == "audio.normalize"@,
        switch_key(AudioSwitch::Mono) == "audio.mono"@,
        switch_key(AudioSwitch::ReplayGain) == "audio.replaygain"@,
        switch_key(AudioSwitch::Gapless) == "audio.gapless"@,
        switch_key(AudioSwitch::Equalizer) == "audio.eq_enabled"@,
        switch_key(AudioSwitch::SmartCrossfade) == "audio.smart_crossfade"@,
        switch_key(AudioSwitch::DynamicCrossfade) == "audio.dynamic_crossfade"@,
        switch_key(AudioSwitch::Visualizer) == "ui.visualizer"@,
{
}

/// Turning a switch turns that switch and no other, and changes no length but that of a
/// prepared crossfade, which goes with the switch that it hangs on.
pub proof fn a_turned_switch_turns_alone(
    state: AudioState,
    s: AudioSwitch,
    other: AudioSwitch,
    on: bool,
)
    ensures
        state.turned(s, on).switch(s) == on,
        other != s ==> state.turned(s, on).switch(other) == state.switch(other),
        state.turned(s, on).crossfade_ms == state.crossfade_ms,
        state.turned(s, on).next_crossfade_ms == (if s == AudioSwitch::DynamicCrossfade && !on {
            0
        } else {
            state.next_crossfade_ms
        }),
        state.with(s, on).switch(s) == on,
        other != s ==> state.with(s, on).switch(other) == state.switch(other),
        state.with(s, on).crossfade_ms == state.crossfade_ms,
        state.with(s, on).next_crossfade_ms == state.next_crossfade_ms,
        state.switch(AudioSwitch::Normalize) == state.normalize && state.switch(AudioSwitch::Mono)
            == state.mono && state.switch(AudioSwitch::ReplayGain) == state.replaygain
            && state.switch(AudioSwitch::Gapless) == state.gapless && state.switch(
            AudioSwitch::Equalizer,
        ) == state.equalizer && state.switch(AudioSwitch::SmartCrossfade) == state.smart_crossfade
            && state.switch(AudioSwitch::DynamicCrossfade) == state.dynamic_crossfade
            && state.switch(AudioSwitch::Visualizer) == state.visualizer,
{
}

/// A stored switch is on where `true` is stored and off where anything else is; gapless
/// playback goes off by `false` alone. Nothing stored changes nothing.
pub proof fn a_stored_switch_is_taken_over(s: AudioSwitch, was: bool, v: Seq<char>)
    ensures
        switch_restored(s, was, None) == was,
        switch_restored(s, was, Some("true"@)),
        v != "true"@ && s != AudioSwitch::Gapless ==> !switch_restored(s, was, Some(v)),
        !switch_restored(AudioSwitch::Gapless, was, Some("false"@)),
        v != "true"@ && v != "false"@ ==> switch_restored(AudioSwitch::Gapless, was, Some(v)) == was,
{
    reveal_strlit("true");
    reveal_strlit("false");
    assert("true"@.len() != "false"@.len());
}

/// What a profile has stored is taken over, each setting under its own name, and the
/// crossfade where it is a length.
pub proof fn each_setting_is_taken_over_by_itself(was: AudioState, stored: StoredAudio)
    ensures
        ({
            let now = audio_restored(was, stored);
            &&& stored.normalize is None ==> now.normalize == was.normalize
            &&& stored.normalize matches Some(v) ==> now.normalize == (v@ == "true"@)
            &&& stored.mono is None ==> now.mono == was.mono
            &&& stored.mono matches Some(v) ==> now.mono == (v@ == "true"@)
            &&& stored.replaygain is None ==> now.replaygain == was.replaygain
            &&& stored.replaygain matches Some(v) ==> now.replaygain == (v@ == "true"@)
            &&& stored.equalizer is None ==> now.equalizer == was.equalizer
            &&& stored.equalizer matches Some(v) ==> now.equalizer == (v@ == "true"@)
            &&& stored.smart_crossfade is None ==> now.smart_crossfade == was.smart_crossfade
            &&& stored.smart_crossfade matches Some(v) ==> now.smart_crossfade == (v@ == "true"@)
            &&& stored.dynamic_crossfade is None ==> now.dynamic_crossfade == was.dynamic_crossfade
            &&& stored.dynamic_crossfade matches Some(v) ==> now.dynamic_crossfade == (v@
                == "true"@)
            &&& stored.visualizer is None ==> now.visualizer == was.visualizer
            &&& stored.visualizer matches Some(v) ==> now.visualizer == (v@ == "true"@)
            &&& stored.gapless is None ==> now.gapless == was.gapless
            &&& stored.gapless is Some && stored.gapless->0@ == "true"@ ==> now.gapless
            &&& stored.gapless is Some && stored.gapless->0@ == "false"@ ==> !now.gapless
            &&& stored.crossfade_ms is None ==> now.crossfade_ms == was.crossfade_ms
            &&& now.next_crossfade_ms == was.next_crossfade_ms
        }),
        forall|n: u32, ms: u32| #[trigger]
            crossfade_restored(n, Some(decimal::int_text(ms as int))) == ms,
        forall|v: Seq<char>, n: u32|
            decimal::nat_named(v) is None ==> #[trigger] crossfade_restored(n, Some(v)) == n,
        crossfade_shown(None) == 0,
{
    reveal_strlit("true");
    reveal_strlit("false");
    assert("true"@.len() != "false"@.len());
    assert forall|n: u32, ms: u32| #[trigger]
        crossfade_restored(n, Some(decimal::int_text(ms as int))) == ms by {
        decimal::a_written_number_reads_back(ms as int);
    }
}

} // verus!
