//! Profiles, signing in and sharing.

use waveflow_commands::error::AppError;
use waveflow_commands::profile::{
    create_profile, delete_profile, finish_profile, forget_last_profile, may_delete_profile,
    profile_name, rename_profile, switch_profile, CreateProfileInput, Profile,
    ProfileDeleteOutcome, ProfileSetup,
};
use waveflow_commands::ready::{mark_launch, signal, since_launch_ms, take_signal, ReadyGate};
use waveflow_commands::remote_auth::{
    import_follows_up, optional_pool, remote_convert_playlist, remote_detect_server,
    remote_get_play_queue, remote_search_catalogue, sends_at_once, status, Converted,
    RemoteAccount, RemoteBinding, RemoteCredentials, RemotePlayQueue, RemoteQueueRow,
    ServerFlavour,
};
use waveflow_commands::renderer::renderer_retry_gpu;
use waveflow_commands::server_auth::{
    answer_callback, callback_fields, callback_query, judge_callback, login_url, login_url_with,
    random_state, server_open_login_browser, wait_for_callback, CallbackQuery, PAGE_DENIED,
    PAGE_MISMATCH, PAGE_SIGNED_IN,
};
use waveflow_commands::settings::{SettingWrite, ValueKind};
use waveflow_commands::share::{
    build_share_url, cache_key, resolve_canonicals, share_link_mint, share_link_revoke,
    share_link_status, share_path, ShareReply,
};

fn other<T>(m: &str) -> Result<T, AppError> {
    Err(AppError::Other(m.to_owned()))
}

fn some(s: &str) -> Option<String> {
    Some(s.to_owned())
}

fn profile(id: i64) -> Profile {
    Profile {
        id,
        user_id: 0,
        name: "Me".to_owned(),
        color_id: "emerald".to_owned(),
        avatar_hash: None,
        data_dir: "profiles/1".to_owned(),
        created_at: 1,
        last_used_at: 1,
    }
}

#[test]
fn a_profile_is_made_or_nothing_of_it_stays() {
    let input = |name: &str| CreateProfileInput {
        name: name.to_owned(),
        color_id: None,
        avatar_hash: some("h"),
    };
    let draft = create_profile(&input(" Me "), 9).unwrap();
    assert_eq!((draft.name.as_str(), draft.color_id.as_str()), ("Me", "emerald"));
    assert_eq!(create_profile(&input(" "), 9), other("profile name cannot be empty"));
    match finish_profile(3, draft, "dir".to_owned(), Ok(())) {
        ProfileSetup::Made(p) => {
            assert_eq!((p.id, p.user_id, p.created_at, p.last_used_at), (3, 0, 9, 9));
            assert_eq!(p.data_dir, "dir");
        }
        x => panic!("{x:?}"),
    }
    let draft = create_profile(&input("Me"), 9).unwrap();
    let failed = AppError::Io("disk".to_owned());
    assert_eq!(
        finish_profile(3, draft, "dir".to_owned(), Err(failed)),
        ProfileSetup::Undo { profile_id: 3, error: AppError::Io("disk".to_owned()) }
    );
    assert_eq!(profile_name(" x "), Ok("x".to_owned()));
}

#[test]
fn a_profile_that_was_opened_is_found_again() {
    let (opened, write) = switch_profile(3, Some(profile(3)), 50).unwrap();
    assert_eq!(opened.last_used_at, 50);
    let stored = match write {
        SettingWrite::Put { key, value, kind } => {
            assert_eq!(key, "app.last_profile_id");
            assert_eq!(kind, ValueKind::Int);
            Some(value)
        }
        x => panic!("{x:?}"),
    };
    assert_eq!(
        forget_last_profile(3, &stored),
        Some(SettingWrite::Remove { key: "app.last_profile_id".to_owned() })
    );
    assert_eq!(forget_last_profile(4, &stored), None);
    assert_eq!(switch_profile(3, None, 50), Err(AppError::ProfileNotFound(3)));
    assert_eq!(rename_profile(3, true, Some(profile(3))), Ok(profile(3)));
    assert_eq!(rename_profile(3, false, Some(profile(3))), Err(AppError::ProfileNotFound(3)));
    assert_eq!(rename_profile(3, true, None), Err(AppError::ProfileNotFound(3)));
}

#[test]
fn not_every_profile_may_go() {
    assert_eq!(may_delete_profile(3, Some(4)), Ok(()));
    assert_eq!(may_delete_profile(3, None), Ok(()));
    assert_eq!(
        may_delete_profile(3, Some(3)),
        other("cannot delete the active profile; switch to another profile first")
    );
    assert_eq!(delete_profile(3, ProfileDeleteOutcome::Deleted), Ok(()));
    assert_eq!(
        delete_profile(3, ProfileDeleteOutcome::WasLast),
        other("cannot delete the last remaining profile")
    );
    assert_eq!(
        delete_profile(3, ProfileDeleteOutcome::NotFound),
        Err(AppError::ProfileNotFound(3))
    );
}

#[test]
fn the_browser_is_sent_with_a_word() {
    assert_eq!(
        login_url(&some("https://x.org//"), "a b"),
        Ok("https://x.org/desktop-login?cb=http%3A%2F%2F127.0.0.1%3A49388%2Fwf%2Fcallback&state=a+b"
            .to_owned())
    );
    assert_eq!(
        login_url(&None, "s"),
        other("web URL is not configured; set it in Settings first")
    );
    assert_eq!(login_url_with("x", "q"), "x/desktop-login?q");
    assert_eq!(server_open_login_browser(some("u")), Ok("u".to_owned()));
    assert_eq!(
        server_open_login_browser(None),
        other("server URL is not configured; set it in Settings first")
    );
    let word = random_state();
    assert_eq!(word.len(), 64);
    assert!(word.chars().all(|c| c.is_ascii_digit() || ('a'..='f').contains(&c)));
    assert_ne!(word, random_state());
}

#[test]
fn a_token_is_taken_only_with_the_word() {
    let back = |url: &str| answer_callback(url, "word").unwrap();
    let good = back("/wf/callback?token=a%20b&state=word&more=1");
    assert_eq!(good.result, Ok("a b".to_owned()));
    assert_eq!(good.page, PAGE_SIGNED_IN);
    let mismatch = back("/wf/callback?token=t&state=other");
    assert_eq!(mismatch.result, other("OAuth callback state mismatch"));
    assert_eq!(mismatch.page, PAGE_MISMATCH);
    assert_eq!(back("/wf/callback?token=t").result, other("OAuth callback state mismatch"));
    assert_eq!(back("/wf/callback").result, other("OAuth callback state mismatch"));
    let denied = back("/wf/callback?token=t&state=word&error=no+way");
    assert_eq!(denied.result, other("sign-in failed: no way"));
    assert_eq!(denied.page, PAGE_DENIED);
    assert_eq!(
        answer_callback("/cb?token=a&token=b", "word"),
        other("callback parse failed: duplicate field `token`")
    );
    assert_eq!(
        answer_callback("/cb?x=a&x=b&state=word&token=t", "word").unwrap().result,
        Ok("t".to_owned())
    );
    assert_eq!(wait_for_callback(None, "word"), other("sign-in timed out — try again"));
    assert!(wait_for_callback(some("/cb?token=t&state=word"), "word").unwrap().result.is_ok());
}

#[test]
fn a_callback_is_read_field_by_field() {
    assert_eq!(callback_query("/cb?a=1?b"), "a=1?b");
    assert_eq!(callback_query("/cb"), "");
    let pair = |n: &str, v: &str| (n.to_owned(), v.to_owned());
    let q = callback_fields(Ok(vec![pair("state", ""), pair("z", "1")])).unwrap();
    assert_eq!(q.state, some(""));
    assert_eq!(q.token, None);
    assert_eq!(
        callback_fields(Err("why".to_owned())),
        other("callback parse failed: why")
    );
    let q = CallbackQuery { token: some("t"), state: some("w"), error: None };
    assert_eq!(judge_callback(q, "w").result, Ok("t".to_owned()));
}

#[test]
fn a_playlist_is_shared_and_taken_back() {
    let reply = |status: u16, body: &str| ShareReply {
        status,
        status_text: format!("{status} Said"),
        body: body.to_owned(),
    };
    let origin = some("https://x.org/");
    let (link, write) =
        share_link_mint("pl", &reply(200, ""), Ok("tok".to_owned()), &origin).unwrap();
    assert_eq!(link.url, "https://x.org/p/tok");
    let stored = match write {
        SettingWrite::Put { key, value, .. } => {
            assert_eq!(key, "share.token.pl");
            Some(value)
        }
        x => panic!("{x:?}"),
    };
    assert_eq!(share_link_status(stored, &origin).unwrap().link, Some(link));
    assert_eq!(share_link_status(None, &None).unwrap().link, None);
    assert_eq!(
        share_link_status(some("t"), &None),
        other("web origin not configured (set app.waveflow_web_url in app_setting)")
    );
    let missing = "playlist not found or not owned by the active profile";
    assert_eq!(share_link_mint("pl", &reply(404, ""), Ok("t".to_owned()), &origin), other(missing));
    assert_eq!(
        share_link_mint("pl", &reply(500, "oh"), Ok("t".to_owned()), &origin),
        other("share mint returned 500 Said (oh)")
    );
    assert_eq!(
        share_link_revoke("pl", &reply(204, "")),
        Ok(SettingWrite::Remove { key: "share.token.pl".to_owned() })
    );
    assert_eq!(share_link_revoke("pl", &reply(404, "")), other(missing));
    assert_eq!(
        share_link_revoke("pl", &reply(200, "oh")),
        other("share revoke returned 200 Said (oh)")
    );
    assert_eq!(share_path("pr", "pl"), "/api/v1/share/playlists/by-canonical/pr/pl");
    assert_eq!(cache_key("pl"), "share.token.pl");
    assert_eq!(
        resolve_canonicals(some("l"), some("p")),
        Ok(("l".to_owned(), "p".to_owned()))
    );
    assert_eq!(resolve_canonicals(None, some("p")), other(missing));
    assert_eq!(
        resolve_canonicals(some("l"), None),
        other("profile.canonical_id not backfilled yet — restart the app to seed it")
    );
    assert_eq!(build_share_url(&origin, "t"), Ok("https://x.org/p/t".to_owned()));
}

#[test]
fn an_account_is_told_as_far_as_it_is_known() {
    let none = status(Err(AppError::NoActiveProfile)).unwrap();
    assert!(!none.signed_in && none.server_url.is_none());
    assert_eq!(status(Err(AppError::Io("x".to_owned()))), Err(AppError::Io("x".to_owned())));
    let account = |name: Option<&str>| RemoteAccount {
        binding: Some(RemoteBinding {
            server_url: "u".to_owned(),
            flavour: "subsonic".to_owned(),
            subsonic_username: some("sub"),
            bootstrapped_at: Some(4),
        }),
        credentials: Some(RemoteCredentials { username: name.map(|n| n.to_owned()) }),
    };
    let s = status(Ok(account(Some("own")))).unwrap();
    assert_eq!(s.username, some("own"));
    assert!(s.signed_in && s.bootstrapped);
    assert_eq!(status(Ok(account(None))).unwrap().username, some("sub"));
    assert_eq!(optional_pool(Ok(3)), Ok(Some(3)));
    assert_eq!(optional_pool::<i32>(Err(AppError::NoActiveProfile)), Ok(None));
    assert!(optional_pool::<i32>(Err(AppError::ProfileNotFound(1))).is_err());
}

#[test]
fn servers_are_told_apart() {
    let w = remote_detect_server(ServerFlavour::Waveflow { server_version: some("1") });
    assert_eq!((w.flavour.as_str(), w.supports_sync), ("waveflow", true));
    assert_eq!(w.server_type, some("waveflow"));
    let s = remote_detect_server(ServerFlavour::Subsonic {
        server_type: some("navidrome"),
        server_version: None,
    });
    assert_eq!((s.flavour.as_str(), s.supports_sync), ("subsonic", false));
    assert_eq!(s.server_type, some("navidrome"));
}

#[test]
fn what_follows_a_copy_depends_on_its_way() {
    assert!(sends_at_once("local_to_server"));
    assert!(!sends_at_once("server_to_local"));
    assert_eq!(remote_convert_playlist("local_to_server", "7"), Converted::Send);
    assert_eq!(remote_convert_playlist("server_to_local", "7"), Converted::DrawCover(7));
    assert_eq!(remote_convert_playlist("server_to_local", "x"), Converted::Nothing);
    assert!(import_follows_up(1));
    assert!(!import_follows_up(0));
    let q = remote_search_catalogue(" song ").unwrap();
    assert_eq!((q.text.as_str(), q.limit), ("song", 50));
    assert!(remote_search_catalogue("  ").is_none());
}

#[test]
fn a_signal_is_not_lost() {
    let mut gate = ReadyGate::new();
    mark_launch(&mut gate, 100);
    mark_launch(&mut gate, 200);
    assert_eq!(since_launch_ms(&mut gate, 350), 250);
    assert!(!take_signal(&mut gate));
    signal(&mut gate, 400);
    signal(&mut gate, 500);
    assert!(take_signal(&mut gate));
    assert!(!take_signal(&mut gate));
}

#[test]
fn the_graphics_card_is_tried_again_only_where_it_was_given_up() {
    assert_eq!(renderer_retry_gpu(Some(true)), Ok(()));
    assert_eq!(
        renderer_retry_gpu(None),
        other("the renderer state is not available this launch")
    );
    assert_eq!(
        renderer_retry_gpu(Some(false)),
        other("nothing to undo: this launch's renderer was not chosen from the stored state")
    );
}

#[test]
fn the_playing_queue_is_shown_as_it_stands() {
    let row = |id: &str| RemoteQueueRow {
        id: id.to_owned(),
        title: Some("Song".to_owned()),
        artist: None,
        artist_id: Some("a1".to_owned()),
        artwork_hash: None,
        duration_ms: Some(1_000),
    };
    let queue = remote_get_play_queue(Some((vec![row("1"), row("2")], 1)));
    assert_eq!(queue, Some(RemotePlayQueue { entries: vec![row("1"), row("2")], index: 1 }));
    assert_eq!(remote_get_play_queue(None), None);
}
