//! What is chosen for the whole application.

use waveflow_commands::error::AppError;
use waveflow_commands::preferences::{
    after_frame_step, apply_window_chrome, effective_chrome, get_minimize_to_tray,
    get_window_chrome, load_minimize_to_tray, load_window_chrome, mark_window_chrome_unapplied,
    set_minimize_to_tray, set_window_chrome, window_chrome_applied, ChromeState, ChromeStep,
    FrameNext, FrameStep, Platform, PreferencesState, WindowChrome,
};
use waveflow_commands::settings::{SettingWrite, ValueKind};

const EVERYWHERE: [Platform; 4] =
    [Platform::Linux, Platform::Macos, Platform::Windows, Platform::Other];

#[test]
fn a_chrome_that_could_not_be_applied_reports_as_system() {
    for platform in EVERYWHERE {
        assert_eq!(effective_chrome(WindowChrome::App, true, platform), WindowChrome::System);
        assert_eq!(effective_chrome(WindowChrome::System, true, platform), WindowChrome::System);
    }
}

#[test]
fn an_applied_chrome_is_reported_as_stored() {
    for platform in EVERYWHERE {
        let expected = if WindowChrome::supported(platform) {
            WindowChrome::App
        } else {
            WindowChrome::System
        };
        assert_eq!(effective_chrome(WindowChrome::App, false, platform), expected);
        assert_eq!(effective_chrome(WindowChrome::System, false, platform), WindowChrome::System);
    }
}

#[test]
fn frames_are_drawn_as_the_system_allows() {
    assert!(WindowChrome::supported(Platform::Linux));
    assert!(WindowChrome::supported(Platform::Macos));
    assert!(!WindowChrome::supported(Platform::Windows));
    assert_eq!(WindowChrome::App.draw(Platform::Linux), "titlebar");
    assert_eq!(WindowChrome::App.draw(Platform::Macos), "overlay");
    assert_eq!(WindowChrome::App.draw(Platform::Windows), "none");
    assert_eq!(WindowChrome::System.draw(Platform::Macos), "none");
    for chrome in [WindowChrome::System, WindowChrome::App] {
        assert_eq!(WindowChrome::parse(chrome.as_str()), Some(chrome));
    }
    assert_eq!(WindowChrome::parse("App"), None);
}

#[test]
fn a_change_of_frame_is_stored_and_told() {
    let mut state = ChromeState::new();
    let change = set_window_chrome("app", &None, &state, Platform::Linux).unwrap();
    assert_eq!(change.wanted, WindowChrome::App);
    assert_eq!(change.previous, WindowChrome::System);
    mark_window_chrome_unapplied(&mut state);
    assert!(state.unapplied);
    match change.after_applying(true, &mut state) {
        ChromeStep::Store(SettingWrite::Put { key, value, kind }) => {
            assert_eq!(key, "ui.window_chrome");
            assert_eq!(value, "app");
            assert_eq!(kind, ValueKind::Text);
            assert!(!state.unapplied);
            let told = get_window_chrome(&Some(value), &state, Platform::Linux);
            assert_eq!(told.chrome, "app");
            assert_eq!(told.draw, "titlebar");
            assert!(told.supported);
        }
        other => panic!("{other:?}"),
    }
    match change.after_storing(true, Platform::Windows) {
        ChromeStep::Done(told) => {
            assert_eq!(told.chrome, "system");
            assert!(!told.supported);
        }
        other => panic!("{other:?}"),
    }
}

#[test]
fn a_change_of_frame_that_fails_is_taken_back() {
    let mut state = ChromeState::new();
    let stored = Some("app".to_owned());
    let change = set_window_chrome("system", &stored, &state, Platform::Linux).unwrap();
    assert!(matches!(change.after_applying(false, &mut state), ChromeStep::Failed));
    assert!(matches!(
        change.after_storing(false, Platform::Linux),
        ChromeStep::PutBack(WindowChrome::App)
    ));
    window_chrome_applied(&mut state);
    assert_eq!(get_window_chrome(&stored, &state, Platform::Linux).chrome, "app");
    assert_eq!(
        set_window_chrome("fancy", &None, &state, Platform::Linux),
        Err(AppError::Other(
            "set_window_chrome: unsupported value 'fancy' (expected system, app)".to_owned()
        ))
    );
    assert_eq!(load_window_chrome(&Some("fancy".to_owned()), Platform::Linux), WindowChrome::System);
}

#[test]
fn a_frame_is_put_on_step_by_step() {
    assert_eq!(
        apply_window_chrome(WindowChrome::App, Platform::Linux),
        FrameStep::Decorations(false)
    );
    assert_eq!(apply_window_chrome(WindowChrome::System, Platform::Windows), FrameStep::Nothing);
    let title = apply_window_chrome(WindowChrome::App, Platform::Macos);
    assert_eq!(title, FrameStep::Title(""));
    let named = Some("WaveFlow".to_owned());
    assert!(matches!(
        after_frame_step(WindowChrome::App, title, Ok(()), named.clone()),
        FrameNext::Step(FrameStep::Style { overlay: true })
    ));
    let style = FrameStep::Style { overlay: true };
    match after_frame_step(WindowChrome::App, style, Err("no".to_owned()), named.clone()) {
        FrameNext::Failed { restore_title, error } => {
            assert_eq!(restore_title, named);
            assert_eq!(
                error,
                AppError::Other("window chrome: set_title_bar_style: no".to_owned())
            );
        }
        other => panic!("{other:?}"),
    }
    match after_frame_step(WindowChrome::App, title, Err("no".to_owned()), named) {
        FrameNext::Failed { restore_title, error } => {
            assert_eq!(restore_title, None);
            assert_eq!(error, AppError::Other("window chrome: set_title: no".to_owned()));
        }
        other => panic!("{other:?}"),
    }
}

#[test]
fn closing_hides_the_window_unless_told_otherwise() {
    assert!(load_minimize_to_tray(&None));
    assert!(!load_minimize_to_tray(&Some("false".to_owned())));
    let mut prefs = PreferencesState::new(true);
    assert!(get_minimize_to_tray(&prefs));
    match set_minimize_to_tray(&mut prefs, false) {
        SettingWrite::Put { key, value, kind } => {
            assert_eq!(key, "app.minimize_to_tray");
            assert_eq!(kind, ValueKind::Bool);
            assert!(!load_minimize_to_tray(&Some(value)));
        }
        other => panic!("{other:?}"),
    }
    assert!(!get_minimize_to_tray(&prefs));
}
