//! Who is asked for lyrics, and when not.

use waveflow_commands::lyrics_providers::{
    any_genre_excluded, disabled_from, enabled_chain, excluded_from, external_fallback_providers,
    filter_providers, first_excluded_genre, genre_matches, is_cooling_down, is_switchable,
    musixmatch_enabled, providers_to_ask, record_answer, record_failure, set_musixmatch_enabled,
    words, Loudness, MusixmatchOptIn, Provider, ProviderHealth, COOLDOWN_MS,
};

#[test]
fn fallback_chain_asks_lrclib_before_the_catch_all_providers() {
    let chain = external_fallback_providers();
    let pos = |p: Provider| chain.iter().position(|c| *c == p);

    let lrclib = pos(Provider::Lrclib).expect("lrclib is in the chain");
    for catch_all in [Provider::NetEase, Provider::Megalobiz, Provider::Genius] {
        let other = pos(catch_all).expect("provider is in the chain");
        assert!(lrclib < other, "lrclib must precede {catch_all:?} in the fallback chain");
    }

    assert!(
        pos(Provider::Musixmatch).is_none(),
        "musixmatch belongs to its own tier, not this chain"
    );
}

#[test]
fn the_excluded_genre_is_named_as_tagged() {
    let defaults: Vec<String> = excluded_from(None);
    assert_eq!(
        first_excluded_genre(&["Jazz", "Lo-Fi Hip Hop"], &defaults),
        Some("Lo-Fi Hip Hop")
    );
    assert_eq!(first_excluded_genre(&["Jazz", "Trap"], &defaults), None);
}

#[test]
fn the_default_genres_catch_their_variants() {
    let defaults: Vec<String> = excluded_from(None);
    for genre in [
        "Instrumental",
        "instrumentals",
        "Instrumental Hip-Hop",
        "Lo-Fi",
        "Lofi",
        "Lo Fi",
        "lo-fi hip hop",
        "LOFI BEATS",
        "Chillhop / Lo-fi",
    ] {
        assert!(
            any_genre_excluded(&[genre], &defaults),
            "{genre} should be excluded by default"
        );
    }
}

#[test]
fn a_pattern_matches_whole_words_only() {
    assert!(!genre_matches("Trap", "rap"));
    assert!(!genre_matches("Folk", "lofi"));
    assert!(!genre_matches("Instrumentalism", "instrumental"));
    assert!(genre_matches("French Rap", "rap"));
    assert!(!any_genre_excluded(&["Pop", "Hip-Hop"], &excluded_from(None)));
}

#[test]
fn a_blank_pattern_excludes_nothing() {
    assert!(!genre_matches("Pop", ""));
    assert!(!genre_matches("Pop", " - "));
}

#[test]
fn an_empty_list_is_a_choice_but_junk_is_not() {
    assert!(excluded_from(Some("[]")).is_empty());
    assert_eq!(excluded_from(Some("not json")), excluded_from(None));
    assert!(disabled_from(Some("[]")).is_empty());
    assert_eq!(disabled_from(Some("{")), vec![Provider::Genius]);
}

#[test]
fn genius_is_off_until_turned_on() {
    assert_eq!(disabled_from(None), vec![Provider::Genius]);
}

#[test]
fn lrclib_cannot_be_switched_off() {
    let disabled = disabled_from(Some(r#"["lrclib","megalobiz","nope"]"#));
    assert_eq!(disabled, vec![Provider::Megalobiz]);
    assert!(!is_switchable(Provider::Lrclib));
}

#[test]
fn a_list_of_genres_is_read_as_it_stands() {
    assert_eq!(
        excluded_from(Some(r#"["Jazz","Café"]"#)),
        vec!["Jazz".to_owned(), "Café".to_owned()]
    );
}

#[test]
fn what_is_switched_off_leaves_the_chain() {
    let chain = enabled_chain(&vec![Provider::Genius, Provider::NetEase]);
    assert_eq!(chain, vec![Provider::Lrclib, Provider::Megalobiz]);
}

#[test]
fn one_provider_waits_for_leave() {
    let mut choice = MusixmatchOptIn::new();
    assert!(!musixmatch_enabled(&choice));
    let asked = vec![Provider::Musixmatch, Provider::Lrclib];
    assert_eq!(filter_providers(&asked, musixmatch_enabled(&choice)), vec![Provider::Lrclib]);
    set_musixmatch_enabled(&mut choice, true);
    assert!(musixmatch_enabled(&choice));
    assert_eq!(filter_providers(&asked, true), asked);
}

#[test]
fn words_are_what_letters_make() {
    assert_eq!(words("Lo-Fi  Hip/Hop 2"), vec!["lo", "fi", "hip", "hop", "2"]);
    assert!(words(" - ").is_empty());
    assert_eq!(words("ÉTÉ"), vec!["été"]);
}

#[test]
fn a_provider_that_fails_is_left_alone_for_a_while() {
    let mut health = ProviderHealth::new();
    let p = Provider::NetEase;
    assert!(!is_cooling_down(&health, p, 0));
    assert_eq!(record_failure(&mut health, p, true, 1_000), Loudness::Warn);
    assert!(is_cooling_down(&health, p, 1_000 + COOLDOWN_MS - 1));
    assert!(!is_cooling_down(&health, p, 1_000 + COOLDOWN_MS));
    assert!(!is_cooling_down(&health, Provider::Genius, 1_000));
    assert_eq!(record_failure(&mut health, p, true, 2_000), Loudness::Debug);
    record_answer(&mut health, p);
    assert!(!is_cooling_down(&health, p, 2_001));
    assert_eq!(record_failure(&mut health, p, false, 3_000), Loudness::Debug);
    assert!(!is_cooling_down(&health, p, 3_001));
    assert_eq!(record_failure(&mut health, Provider::Genius, false, 3_000), Loudness::Warn);
}

#[test]
fn a_provider_rests_after_its_last_outage_whatever_went_before() {
    let p = Provider::NetEase;
    let mut health = ProviderHealth::new();
    assert_eq!(record_failure(&mut health, p, false, 100), Loudness::Warn);
    assert!(!is_cooling_down(&health, p, 100), "it was reached");
    assert_eq!(record_failure(&mut health, p, true, 1_000), Loudness::Debug);
    record_failure(&mut health, p, true, 5_000);
    record_failure(&mut health, p, false, 9_000);
    record_answer(&mut health, Provider::Lrclib);
    record_failure(&mut health, Provider::Genius, true, 50_000);
    assert!(is_cooling_down(&health, p, 5_000 + COOLDOWN_MS - 1));
    assert!(!is_cooling_down(&health, p, 5_000 + COOLDOWN_MS));
    assert!(is_cooling_down(&health, Provider::Genius, 5_000 + COOLDOWN_MS));
    record_answer(&mut health, p);
    assert!(!is_cooling_down(&health, p, 5_001));
    record_failure(&mut health, p, false, 6_000);
    assert!(!is_cooling_down(&health, p, 6_001));
    assert_eq!(COOLDOWN_MS, 600_000);
}

#[test]
fn words_around_a_genre_do_not_hide_it() {
    for (genre, pattern) in [("Lofi", "lo-fi"), ("instrumentals", "Instrumental"), ("Ünder", "ünder")] {
        assert!(genre_matches(genre, pattern));
        for (a, b) in [("", ""), ("Chill", "Beats"), ("lo", "fi"), ("Été -", "/ ...")] {
            assert!(genre_matches(&format!("{a} {genre} / {b}"), pattern), "{a} {genre} {b}");
        }
    }
}

#[test]
fn separators_and_case_of_a_pattern_do_not_matter() {
    for genre in ["Lofi", "lo.fi", "LO FI beats", "lo", "fi", "Lofis", "slofi"] {
        let spelled = genre_matches(genre, "lofi");
        for pattern in ["lo-fi", "Lo Fi", "LOFI", " lo // fi ", "l-o-f-i"] {
            assert_eq!(genre_matches(genre, pattern), spelled, "{genre} {pattern}");
        }
    }
    for pattern in ["été rock", "été - rock", " été/rock!"] {
        assert!(genre_matches("Été Rock", pattern));
    }
}

#[test]
fn who_is_off_or_resting_is_not_asked() {
    let mut health = ProviderHealth::new();
    let genius_off = disabled_from(None);
    let asked = providers_to_ask(&genius_off, false, &health, 0);
    assert_eq!(asked.providers, [Provider::Lrclib, Provider::NetEase, Provider::Megalobiz]);
    assert!(!asked.partial);
    record_failure(&mut health, Provider::NetEase, true, 0);
    record_failure(&mut health, Provider::Genius, true, 0);
    let asked = providers_to_ask(&genius_off, false, &health, 1);
    assert_eq!(asked.providers, [Provider::Lrclib, Provider::Megalobiz]);
    assert!(asked.partial);
    let asked = providers_to_ask(&vec![Provider::Genius, Provider::NetEase], false, &health, 1);
    assert!(!asked.partial);
    let asked = providers_to_ask(&genius_off, true, &health, 1);
    assert!(asked.providers.is_empty() && !asked.partial);
    let asked = providers_to_ask(&Vec::new(), false, &health, COOLDOWN_MS);
    assert_eq!(asked.providers, external_fallback_providers());
    assert!(!asked.partial);
}

#[test]
fn providers_are_known_by_name() {
    for p in [
        Provider::Musixmatch,
        Provider::Lrclib,
        Provider::NetEase,
        Provider::Megalobiz,
        Provider::Genius,
    ] {
        assert_eq!(Provider::from_id(p.as_str()), Some(p));
    }
    assert_eq!(Provider::from_id("nope"), None);
}
