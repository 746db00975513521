//! Preferences of the whole application: what closing the window does, and who
//! draws the window's frame.

use vstd::prelude::*;
use vstd::string::StringExecFns;

use crate::error;
use crate::error::AppError;
use crate::settings;
use crate::settings::{switch_or, switch_value, SettingWrite, ValueKind};
use crate::text;
use crate::text::{around, same_text};

verus! {

/// Where it is kept whether closing the window hides it.
pub const KEY_MINIMIZE: &'static str = "app.minimize_to_tray";

/// Where it is kept who draws the window's frame.
pub const KEY_WINDOW_CHROME: &'static str = "ui.window_chrome";

// Closing the window.

/// The preferences that are asked for at every turn.
#[derive(Clone, Copy, PartialEq, Eq, Debug, Structural)]
pub struct PreferencesState {
    /// Whether closing the window hides it.
    pub minimize_to_tray: bool,
}

impl PreferencesState {
    /// The preferences at the start.
    pub fn new(minimize_to_tray: bool) -> (s: PreferencesState)
        ensures
            s.minimize_to_tray == minimize_to_tray,
    {
        PreferencesState { minimize_to_tray }
    }
}

/// Whether closing the window hides it: unless a stored setting says otherwise.
pub fn load_minimize_to_tray(value: &Option<String>) -> (r: bool)
    ensures
        r == settings::on_or(text::opt_text(*value), true),
{
    switch_or(value, true)
}

/// Whether closing the window hides it.
pub fn get_minimize_to_tray(prefs: &PreferencesState) -> (r: bool)
    ensures
        r == prefs.minimize_to_tray,
{
    prefs.minimize_to_tray
}

/// What is stored of whether closing the window hides it.
pub open spec fn minimize_change(enabled: bool) -> settings::SettingNote {
    settings::SettingNote::Put {
        key: "app.minimize_to_tray"@,
        value: settings::switch_text(enabled),
        kind: ValueKind::Bool,
    }
}

/// Choose whether closing the window hides it, with what is stored of it.
pub fn set_minimize_to_tray(prefs: &mut PreferencesState, enabled: bool) -> (w: SettingWrite)
    ensures
        final(prefs).minimize_to_tray == enabled,
        w@ == minimize_change(enabled),
{
    prefs.minimize_to_tray = enabled;
    SettingWrite::Put {
        key: KEY_MINIMIZE.to_owned(),
        value: switch_value(enabled).to_owned(),
        kind: ValueKind::Bool,
    }
}

/// What was chosen is what is found at the next start.
pub proof fn a_chosen_closing_is_found_again(settings: Map<Seq<char>, Seq<char>>, enabled: bool)
    ensures
        settings::on_or(
            settings::setting(
                settings::settings_after(settings, minimize_change(enabled)),
                "app.minimize_to_tray"@,
            ),
            true,
        ) == enabled,
{
    settings::a_stored_switch_reads_back(enabled, true);
}

// The window's frame.

/// The system that the application runs on.
#[derive(Clone, Copy, PartialEq, Eq, Debug, Structural)]
pub enum Platform {
    Linux,
    Macos,
    Windows,
    Other,
}

/// Who draws the window's frame.
#[derive(Clone, Copy, PartialEq, Eq, Debug, Structural)]
pub enum WindowChrome {
    System,
    App,
}

/// A frame's stored name.
pub open spec fn chrome_name(c: WindowChrome) -> Seq<char> {
    match c {
        WindowChrome::System => "system"@,
        WindowChrome::App => "app"@,
    }
}

/// The frame that a stored name stands for.
pub open spec fn chrome_named(s: Seq<char>) -> Option<WindowChrome> {
    if s == "system"@ {
        Some(WindowChrome::System)
    } else if s == "app"@ {
        Some(WindowChrome::App)
    } else {
        None
    }
}

/// Whether the application can draw the frame itself.
pub open spec fn can_draw(platform: Platform) -> bool {
    platform == Platform::Linux || platform == Platform::Macos
}

/// The frame that a choice comes to: the system's where the application cannot
/// draw it.
pub open spec fn chrome_on(c: WindowChrome, platform: Platform) -> WindowChrome {
    if can_draw(platform) {
        c
    } else {
        WindowChrome::System
    }
}

/// What the interface draws for a frame.
pub open spec fn drawing(c: WindowChrome, platform: Platform) -> Seq<char> {
    match chrome_on(c, platform) {
        WindowChrome::System => "none"@,
        WindowChrome::App => if platform == Platform::Macos {
            "overlay"@
        } else {
            "titlebar"@
        },
    }
}

impl WindowChrome {
    /// The frame's stored name.
    pub fn as_str(self) -> (r: &'static str)
        ensures
            r@ == chrome_name(self),
    {
        match self {
            WindowChrome::System => "system",
            WindowChrome::App => "app",
        }
    }

    /// The frame that a stored name stands for.
    pub fn parse(value: &str) -> (r: Option<WindowChrome>)
        ensures
            r == chrome_named(value@),
    {
        if same_text(value, "system") {
            Some(WindowChrome::System)
        } else if same_text(value, "app") {
            Some(WindowChrome::App)
        } else {
            None
        }
    }

    /// Whether the application can draw the frame itself.
    pub fn supported(platform: Platform) -> (r: bool)
        ensures
            r == can_draw(platform),
    {
        match platform {
            Platform::Linux => true,
            Platform::Macos => true,
            Platform::Windows => false,
            Platform::Other => false,
        }
    }

    /// The frame that the choice comes to.
    pub fn resolved(self, platform: Platform) -> (r: WindowChrome)
        ensures
            r == chrome_on(self, platform),
    {
        if WindowChrome::supported(platform) {
            self
        } else {
            WindowChrome::System
        }
    }

    /// What the interface draws for the frame.
    pub fn draw(self, platform: Platform) -> (r: &'static str)
        ensures
            r@ == drawing(self, platform),
    {
        match self.resolved(platform) {
            WindowChrome::System => "none",
            WindowChrome::App => {
                if platform == Platform::Macos {
                    "overlay"
                } else {
                    "titlebar"
                }
            },
        }
    }
}

/// A frame reads back as it was stored.
pub proof fn a_stored_frame_reads_back(c: WindowChrome)
    ensures
        chrome_named(chrome_name(c)) == Some(c),
{
    reveal_strlit("system");
    reveal_strlit("app");
    assert("system"@.len() == 6);
    assert("app"@.len() == 3);
}

/// The frame that the window has: the system's where the chosen one could not be
/// put on.
pub open spec fn frame_of(stored: WindowChrome, unapplied: bool, platform: Platform) -> WindowChrome {
    if unapplied {
        WindowChrome::System
    } else {
        chrome_on(stored, platform)
    }
}

/// The frame that the window has.
pub fn effective_chrome(stored: WindowChrome, unapplied: bool, platform: Platform) -> (r:
    WindowChrome)
    ensures
        r == frame_of(stored, unapplied, platform),
{
    if unapplied {
        WindowChrome::System
    } else {
        stored.resolved(platform)
    }
}

/// Whether the chosen frame could not be put on.
#[derive(Clone, Copy, PartialEq, Eq, Debug, Structural)]
pub struct ChromeState {
    pub unapplied: bool,
}

impl ChromeState {
    /// Nothing has gone wrong.
    pub fn new() -> (s: ChromeState)
        ensures
            !s.unapplied,
    {
        ChromeState { unapplied: false }
    }
}

/// Remember that the chosen frame could not be put on.
pub fn mark_window_chrome_unapplied(state: &mut ChromeState)
    ensures
        final(state).unapplied,
{
    state.unapplied = true;
}

/// Remember that a frame was put on.
pub fn window_chrome_applied(state: &mut ChromeState)
    ensures
        !final(state).unapplied,
{
    state.unapplied = false;
}

/// The frame that a stored setting stands for: the system's where it stands for
/// none.
pub open spec fn stored_frame(value: Option<Seq<char>>, platform: Platform) -> WindowChrome {
    match value {
        Some(v) => match chrome_named(v) {
            Some(c) => chrome_on(c, platform),
            None => WindowChrome::System,
        },
        None => WindowChrome::System,
    }
}

/// The frame that a stored setting stands for.
pub fn load_window_chrome(value: &Option<String>, platform: Platform) -> (r: WindowChrome)
    ensures
        r == stored_frame(text::opt_text(*value), platform),
{
    match value {
        Some(v) => match WindowChrome::parse(v.as_str()) {
            Some(c) => c.resolved(platform),
            None => WindowChrome::System,
        },
        None => WindowChrome::System,
    }
}

/// The window's frame, as the interface is told it.
#[derive(PartialEq, Eq, Debug)]
pub struct WindowChromeState {
    pub chrome: String,
    pub draw: String,
    pub supported: bool,
}

/// Whether the interface is told of this frame.
pub open spec fn tells(s: WindowChromeState, c: WindowChrome, platform: Platform) -> bool {
    &&& s.chrome@ == chrome_name(c)
    &&& s.draw@ == drawing(c, platform)
    &&& s.supported == can_draw(platform)
}

fn chrome_told(c: WindowChrome, platform: Platform) -> (r: WindowChromeState)
    ensures
        tells(r, c, platform),
{
    WindowChromeState {
        chrome: c.as_str().to_owned(),
        draw: c.draw(platform).to_owned(),
        supported: WindowChrome::supported(platform),
    }
}

/// The window's frame, as the interface is told it.
pub fn get_window_chrome(value: &Option<String>, state: &ChromeState, platform: Platform) -> (r:
    WindowChromeState)
    ensures
        tells(
            r,
            frame_of(stored_frame(text::opt_text(*value), platform), state.unapplied, platform),
            platform,
        ),
{
    chrome_told(
        effective_chrome(load_window_chrome(value, platform), state.unapplied, platform),
        platform,
    )
}

/// A change of the window's frame: the frame that is put on first, and the one
/// that is put back where the choice cannot be stored.
#[derive(Clone, Copy, PartialEq, Eq, Debug, Structural)]
pub struct ChromeChange {
    pub wanted: WindowChrome,
    pub previous: WindowChrome,
}

/// A change of the window's frame, by the name of the frame.
pub fn set_window_chrome(
    chrome: &str,
    value: &Option<String>,
    state: &ChromeState,
    platform: Platform,
) -> (r: Result<ChromeChange, AppError>)
    ensures
        match chrome_named(chrome@) {
            Some(c) => r == Ok::<ChromeChange, AppError>(
                ChromeChange {
                    wanted: c,
                    previous: frame_of(
                        stored_frame(text::opt_text(*value), platform),
                        state.unapplied,
                        platform,
                    ),
                },
            ),
            None => r matches Err(e) && error::says(
                e,
                "set_window_chrome: unsupported value '"@ + chrome@
                    + "' (expected system, app)"@,
            ),
        },
{
    match WindowChrome::parse(chrome) {
        Some(wanted) => Ok(
            ChromeChange {
                wanted,
                previous: effective_chrome(
                    load_window_chrome(value, platform),
                    state.unapplied,
                    platform,
                ),
            },
        ),
        None => Err(
            AppError::Other(
                around(
                    "set_window_chrome: unsupported value '",
                    chrome,
                    "' (expected system, app)",
                ),
            ),
        ),
    }
}

/// What follows once a frame has been put on, or not, and the choice stored, or
/// not.
#[derive(PartialEq, Eq, Debug)]
pub enum ChromeStep {
    /// The choice is stored.
    Store(SettingWrite),
    /// The previous frame is put back, and the change has failed.
    PutBack(WindowChrome),
    /// The change is done.
    Done(WindowChromeState),
    /// The change has failed with nothing changed.
    Failed,
}

impl ChromeChange {
    /// What is stored of the choice.
    pub open spec fn change(self) -> settings::SettingNote {
        settings::SettingNote::Put {
            key: "ui.window_chrome"@,
            value: chrome_name(self.wanted),
            kind: ValueKind::Text,
        }
    }

    /// What follows once the frame has been put on, or not.
    pub fn after_applying(self, applied: bool, state: &mut ChromeState) -> (r: ChromeStep)
        ensures
            applied ==> !final(state).unapplied && (r matches ChromeStep::Store(w) && w@
                == self.change()),
            !applied ==> *final(state) == *old(state) && r is Failed,
    {
        if !applied {
            return ChromeStep::Failed;
        }
        window_chrome_applied(state);
        ChromeStep::Store(
            SettingWrite::Put {
                key: KEY_WINDOW_CHROME.to_owned(),
                value: self.wanted.as_str().to_owned(),
                kind: ValueKind::Text,
            },
        )
    }

    /// What follows once the choice has been stored, or not.
    pub fn after_storing(self, stored: bool, platform: Platform) -> (r: ChromeStep)
        ensures
            stored ==> (r matches ChromeStep::Done(s) && tells(
                s,
                chrome_on(self.wanted, platform),
                platform,
            )),
            !stored ==> r == ChromeStep::PutBack(self.previous),
    {
        if stored {
            ChromeStep::Done(chrome_told(self.wanted.resolved(platform), platform))
        } else {
            ChromeStep::PutBack(self.previous)
        }
    }
}

/// A change that is done is told as the window then has it, at once and whenever
/// it is asked for again.
pub proof fn a_changed_frame_is_told(
    settings: Map<Seq<char>, Seq<char>>,
    change: ChromeChange,
    platform: Platform,
)
    ensures
        frame_of(
            stored_frame(
                settings::setting(
                    settings::settings_after(settings, change.change()),
                    "ui.window_chrome"@,
                ),
                platform,
            ),
            false,
            platform,
        ) == chrome_on(change.wanted, platform),
{
    a_stored_frame_reads_back(change.wanted);
}

/// The window and what is kept of its frame.
pub struct ChromeWorld {
    /// The frame that the window has.
    pub frame: WindowChrome,
    /// What is stored of it.
    pub value: Option<Seq<char>>,
    /// Whether the stored frame could not be put on.
    pub unapplied: bool,
}

impl ChromeWorld {
    /// The frame that the interface is told of.
    pub open spec fn told(self, platform: Platform) -> WindowChrome {
        frame_of(stored_frame(self.value, platform), self.unapplied, platform)
    }

    /// The world after a change whose steps went as said.
    pub open spec fn after(
        self,
        wanted: WindowChrome,
        platform: Platform,
        applied: bool,
        stored: bool,
        put_back: bool,
    ) -> ChromeWorld {
        if !applied {
            self
        } else if stored {
            ChromeWorld {
                frame: chrome_on(wanted, platform),
                value: Some(chrome_name(wanted)),
                unapplied: false,
            }
        } else if put_back {
            ChromeWorld {
                frame: chrome_on(self.told(platform), platform),
                unapplied: false,
                ..self
            }
        } else {
            ChromeWorld { frame: chrome_on(wanted, platform), unapplied: false, ..self }
        }
    }
}

/// The interface is told of the frame that the window has, whatever a change comes
/// to, where it was so before: a change that fails leaves both as they were. It
/// takes that the previous frame can be put back, and that it was the stored one.
pub proof fn the_frame_that_is_told_is_there(
    world: ChromeWorld,
    wanted: WindowChrome,
    platform: Platform,
    applied: bool,
    stored: bool,
    put_back: bool,
)
    requires
        world.told(platform) == world.frame,
        applied && !stored ==> put_back && (!world.unapplied || stored_frame(world.value, platform)
            == WindowChrome::System),
    ensures
        ({
            let then = world.after(wanted, platform, applied, stored, put_back);
            &&& then.told(platform) == then.frame
            &&& !(applied && stored) ==> then.frame == world.frame
        }),
{
    a_stored_frame_reads_back(wanted);
}

// How a frame is put on.

/// A step of putting a frame on.
#[derive(Clone, Copy, PartialEq, Eq, Debug)]
pub enum FrameStep {
    /// The window gets this title.
    Title(&'static str),
    /// The title bar lies over the content, or above it.
    Style { overlay: bool },
    /// The system draws a frame, or none.
    Decorations(bool),
    /// There is nothing to do.
    Nothing,
}

/// What follows a step.
#[derive(PartialEq, Eq, Debug)]
pub enum FrameNext {
    Step(FrameStep),
    /// The frame is on.
    Done,
    /// It is not. A title that was taken away is given back.
    Failed { restore_title: Option<String>, error: AppError },
}

/// How a frame begins to be put on. Where the title bar lies over the content the
/// window has no title, since it would be drawn there.
pub fn apply_window_chrome(chrome: WindowChrome, platform: Platform) -> (r: FrameStep)
    ensures
        match platform {
            Platform::Macos => r matches FrameStep::Title(t) && t@ == (if chrome
                == WindowChrome::App {
                ""@
            } else {
                "WaveFlow"@
            }),
            Platform::Linux => r == FrameStep::Decorations(chrome == WindowChrome::System),
            _ => r is Nothing,
        },
{
    match platform {
        Platform::Macos => match chrome {
            WindowChrome::App => FrameStep::Title(""),
            WindowChrome::System => FrameStep::Title("WaveFlow"),
        },
        Platform::Linux => FrameStep::Decorations(chrome == WindowChrome::System),
        _ => FrameStep::Nothing,
    }
}

/// What follows a step of putting a frame on, by how it went. A title bar that
/// cannot be moved gives the window back the title that it had.
pub fn after_frame_step(
    chrome: WindowChrome,
    step: FrameStep,
    outcome: Result<(), String>,
    previous_title: Option<String>,
) -> (r: FrameNext)
    ensures
        match (step, outcome) {
            (FrameStep::Nothing, _) => r is Done,
            (FrameStep::Title(_), Ok(_)) => r == FrameNext::Step(
                FrameStep::Style { overlay: chrome == WindowChrome::App },
            ),
            (_, Ok(_)) => r is Done,
            (FrameStep::Title(_), Err(e)) => r matches FrameNext::Failed { restore_title, error }
                && restore_title is None && error::says(
                error,
                "window chrome: set_title: "@ + e@,
            ),
            (FrameStep::Style { .. }, Err(e)) => r matches FrameNext::Failed {
                restore_title,
                error,
            } && restore_title == previous_title && error::says(
                error,
                "window chrome: set_title_bar_style: "@ + e@,
            ),
            (FrameStep::Decorations(_), Err(e)) => r matches FrameNext::Failed {
                restore_title,
                error,
            } && restore_title is None && error::says(
                error,
                "window chrome: set_decorations: "@ + e@,
            ),
        },
{
    match step {
        FrameStep::Nothing => FrameNext::Done,
        FrameStep::Title(_) => match outcome {
            Ok(_) => FrameNext::Step(
                FrameStep::Style {
                    overlay: match chrome {
                        WindowChrome::App => true,
                        WindowChrome::System => false,
                    },
                },
            ),
            Err(e) => FrameNext::Failed {
                restore_title: None,
                error: AppError::Other("window chrome: set_title: ".to_owned().concat(e.as_str())),
            },
        },
        FrameStep::Style { .. } => match outcome {
            Ok(_) => FrameNext::Done,
            Err(e) => FrameNext::Failed {
                restore_title: previous_title,
                error: AppError::Other(
                    "window chrome: set_title_bar_style: ".to_owned().concat(e.as_str()),
                ),
            },
        },
        FrameStep::Decorations(_) => match outcome {
            Ok(_) => FrameNext::Done,
            Err(e) => FrameNext::Failed {
                restore_title: None,
                error: AppError::Other(
                    "window chrome: set_decorations: ".to_owned().concat(e.as_str()),
                ),
            },
        },
    }
}

/// The frames have these names, and nothing else names one.
pub proof fn frames_have_these_names(s: Seq<char>)
    ensures
        chrome_name(WindowChrome::System) == "system"@,
        chrome_name(WindowChrome::App) == "app"@,
        s != "system"@ && s != "app"@ ==> chrome_named(s) is None,
{
}

/// The application draws its own frame on Linux and on macOS alone: there a choice is kept,
/// and elsewhere the system draws the frame, and the interface draws nothing.
pub proof fn a_frame_is_drawn_where_it_can_be(c: WindowChrome, platform: Platform)
    ensures
        can_draw(platform) <==> platform == Platform::Linux || platform == Platform::Macos,
        can_draw(platform) ==> chrome_on(c, platform) == c,
        !can_draw(platform) ==> chrome_on(c, platform) == WindowChrome::System,
        drawing(WindowChrome::System, platform) == "none"@,
        drawing(WindowChrome::App, Platform::Macos) == "overlay"@,
        drawing(WindowChrome::App, Platform::Linux) == "titlebar"@,
        !can_draw(platform) ==> drawing(c, platform) == "none"@,
{
}

/// The window has the stored frame, where that could be put on, and the system's where it
/// could not or where none is stored.
pub proof fn the_stored_frame_is_put_on(value: Seq<char>, c: WindowChrome, platform: Platform)
    ensures
        frame_of(c, true, platform) == WindowChrome::System,
        can_draw(platform) ==> frame_of(c, false, platform) == c,
        stored_frame(None, platform) == WindowChrome::System,
        chrome_named(value) is None ==> stored_frame(Some(value), platform) == WindowChrome::System,
        can_draw(platform) ==> stored_frame(Some("app"@), platform) == WindowChrome::App,
        stored_frame(Some("system"@), platform) == WindowChrome::System,
{
    reveal_strlit("app");
    reveal_strlit("system");
    assert("app"@.len() != "system"@.len());
}

/// The interface is told the frame's name, what to draw, and whether there is a choice.
pub proof fn the_frame_is_told(s: WindowChromeState, c: WindowChrome, platform: Platform)
    requires
        tells(s, c, platform),
    ensures
        s.chrome@ == chrome_name(c),
        s.draw@ == drawing(c, platform),
        s.supported <==> platform == Platform::Linux || platform == Platform::Macos,
{
}

} // verus!
