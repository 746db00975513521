//! Plugins: which are installed, and what may be installed.

use std::io::Write;

use waveflow_commands::error::AppError;
use waveflow_commands::plugin_store::{
    asset_limit, asset_path, check_declared_length, check_manifest, check_plugin_files,
    fetch_registry, gather_assets, install_plugin_from_registry, installed_version, is_compatible,
    list_plugin_marketplace, may_install, open_plugin_zip, parse_semver, plugin_assets,
    read_zip_file, staging_dir, take_asset, take_chunk, FetchStep, RegistryEntry, SourceReply,
    ZipEntry, ZipMember, MAX_DOWNLOAD_BYTES,
};
use waveflow_commands::plugins::{
    artist_limit, enabled_key, favorites_key, get_plugin_favorites, installed_plugins,
    list_installed_plugins, load_library_artist_snapshot, manifest_to_info, may_uninstall,
    read_enabled, set_plugin_enabled, set_plugin_favorites, source_preamble, uninstall_plugin,
    validate_plugin_id_chars, walk_install_root, ArtistRow, Manifest, ManifestState,
    PluginFavorite, PluginPermissionsInfo,
};
use waveflow_commands::settings::SettingWrite;

fn other<T>(m: &str) -> Result<T, AppError> {
    Err(AppError::Other(m.to_owned()))
}

fn some(s: &str) -> Option<String> {
    Some(s.to_owned())
}

fn manifest(id: &str, name: &str) -> Manifest {
    Manifest {
        id: id.to_owned(),
        name: name.to_owned(),
        version: "1.0.0".to_owned(),
        author: "someone".to_owned(),
        world: "waveflow:metadata".to_owned(),
        description: None,
        homepage: None,
        license: None,
        permissions: PluginPermissionsInfo {
            http: vec!["example.org".to_owned()],
            storage_read: true,
            storage_state: false,
            library_read_artists: true,
        },
        assets: Vec::new(),
    }
}

fn archive(files: &[(&str, &[u8])]) -> Vec<u8> {
    let mut w = zip::ZipWriter::new(std::io::Cursor::new(Vec::new()));
    for (name, content) in files {
        w.start_file(*name, zip::write::SimpleFileOptions::default()).unwrap();
        w.write_all(content).unwrap();
    }
    w.finish().unwrap().into_inner()
}

#[test]
fn an_id_is_made_of_few_characters() {
    assert_eq!(validate_plugin_id_chars("apple-lyrics-2"), Ok(()));
    assert_eq!(validate_plugin_id_chars(""), other("plugin id is empty"));
    assert_eq!(
        validate_plugin_id_chars("a/b"),
        other("plugin id contains illegal character '/' (allowed: [a-z0-9-])")
    );
    assert_eq!(
        validate_plugin_id_chars("a\nb"),
        other("plugin id contains illegal character '\\n' (allowed: [a-z0-9-])")
    );
    assert_eq!(
        validate_plugin_id_chars("été"),
        other("plugin id contains illegal character 'é' (allowed: [a-z0-9-])")
    );
    assert_eq!(enabled_key("a"), "plugin.a.enabled");
    assert_eq!(favorites_key("a"), "plugin.a.favorites");
}

#[test]
fn a_folder_has_to_be_named_like_its_plugin() {
    let found = walk_install_root(vec![
        ("one".to_owned(), Some(manifest("one", "One"))),
        ("two".to_owned(), Some(manifest("other", "Other"))),
        ("three".to_owned(), None),
    ]);
    assert_eq!(found, vec![manifest("one", "One")]);
}

#[test]
fn a_bundled_plugin_wins_over_another_of_its_id() {
    let all = installed_plugins(
        vec![manifest("one", "Bundled")],
        vec![manifest("one", "Loaded"), manifest("two", "Two")],
    );
    assert_eq!(all, vec![manifest("one", "Bundled"), manifest("two", "Two")]);
}

#[test]
fn plugins_are_listed_in_order() {
    let info = |id: &str, name: &str| manifest_to_info(manifest(id, name), true, false);
    let listed = list_installed_plugins(vec![
        info("b", "zed"),
        info("c", "Alpha"),
        info("a", "ÉTÉ"),
        info("e", "alpha"),
        info("d", "Mid"),
    ]);
    let ids: Vec<&str> = listed.iter().map(|p| p.id.as_str()).collect();
    assert_eq!(ids, vec!["c", "e", "d", "b", "a"]);
}

#[test]
fn a_plugin_is_told_as_its_manifest_says() {
    let p = manifest_to_info(manifest("one", "One"), false, true);
    assert_eq!(p.id, "one");
    assert!(!p.enabled);
    assert!(p.bundled);
    assert!(p.permissions.storage_read);
    assert_eq!(p.permissions.http, vec!["example.org".to_owned()]);
}

#[test]
fn a_plugin_is_turned_on_and_off() {
    let there = ManifestState::Names("one".to_owned());
    for on in [true, false] {
        match set_plugin_enabled("one", &there, on).unwrap() {
            SettingWrite::Put { key, value, .. } => {
                assert_eq!(key, "plugin.one.enabled");
                assert_eq!(read_enabled(&Some(value)), on);
            }
            x => panic!("{x:?}"),
        }
    }
    assert_eq!(
        set_plugin_enabled("two", &there, true),
        other("plugin not installed (or manifest id mismatch): two")
    );
    assert!(set_plugin_enabled("a b", &there, true).is_err());
    assert_eq!(source_preamble("one", &some("false")), other("plugin disabled: one"));
    assert_eq!(source_preamble("one", &some("true")), Ok(()));
}

#[test]
fn a_plugin_is_taken_away() {
    assert_eq!(may_uninstall("one", false), Ok(()));
    assert_eq!(
        may_uninstall("one", true),
        other("plugin one is bundled with WaveFlow and cannot be uninstalled (disable it instead)")
    );
    let gone = uninstall_plugin("one", &ManifestState::Missing, 5).unwrap();
    assert_eq!(gone.setting, SettingWrite::Remove { key: "plugin.one.enabled".to_owned() });
    assert_eq!(
        uninstall_plugin("one", &ManifestState::Unreadable, 5),
        other("plugin manifest present but id mismatch (or corrupt): one")
    );
}

#[test]
fn favourites_are_not_without_number() {
    let one = || PluginFavorite {
        id: "1".to_owned(),
        title: "t".to_owned(),
        artist: "a".to_owned(),
        album: None,
        artwork_url: None,
    };
    assert_eq!(set_plugin_favorites("p", &vec![one()]), Ok("plugin.p.favorites".to_owned()));
    let many: Vec<PluginFavorite> = (0..1001).map(|_| one()).collect();
    assert_eq!(set_plugin_favorites("p", &many), other("too many favorites: 1001 (max 1000)"));
    assert!(get_plugin_favorites(None).is_empty());
    assert_eq!(get_plugin_favorites(Some(vec![one()])).len(), 1);
}

#[test]
fn artists_are_handed_out_within_bounds() {
    assert_eq!(artist_limit(1_000), 200);
    assert_eq!(artist_limit(7), 7);
    let rows = vec![
        ArtistRow { id: 3, name: "A".to_owned(), track_count: 2 },
        ArtistRow { id: -1, name: "B".to_owned(), track_count: -4 },
    ];
    let artists = load_library_artist_snapshot(&rows);
    assert_eq!(artists[0].id, 3);
    assert_eq!(artists[0].track_count, 2);
}

#[test]
fn versions_are_compared_piece_by_piece() {
    assert_eq!(parse_semver("1.2.3"), (1, 2, 3));
    assert_eq!(parse_semver("1.2"), (1, 2, 0));
    assert_eq!(parse_semver("1.2.3-beta.1"), (1, 2, 3));
    assert_eq!(parse_semver("99.x.0"), (0, 0, 0));
    assert_eq!(parse_semver("1.x.3-beta.1"), (0, 0, 0));
    assert_eq!(parse_semver("4294967296.1.1"), (0, 0, 0));
    assert!(is_compatible("0.0.1", &Some("99.x.0".to_owned())));
    assert!(is_compatible("1.10.0", &some("1.9.9")));
    assert!(!is_compatible("1.9.9", &some("1.10.0")));
    assert!(is_compatible("0.0.1", &None));
}

fn entry(id: &str) -> RegistryEntry {
    RegistryEntry {
        id: id.to_owned(),
        name: "Name".to_owned(),
        description: "d".to_owned(),
        author: "a".to_owned(),
        repo: "me/repo".to_owned(),
        homepage: None,
        world: "w".to_owned(),
        version: "1.2.0".to_owned(),
        blake3: "h".to_owned(),
        asset: None,
        http: Vec::new(),
        storage_read: false,
        storage_state: false,
        tags: Vec::new(),
        official: true,
        min_app_version: some("2.0.0"),
    }
}

#[test]
fn a_release_is_found_in_the_registry() {
    let r = install_plugin_from_registry(&vec![entry("a"), entry("b")], "b", "2.0.0").unwrap();
    assert_eq!(r.url, "https://github.com/me/repo/releases/download/v1.2.0/b-v1.2.0.zip");
    assert_eq!(r.blake3, "h");
    assert_eq!(
        install_plugin_from_registry(&vec![entry("a")], "b", "2.0.0"),
        other("plugin not in registry: b")
    );
    assert_eq!(
        install_plugin_from_registry(&vec![entry("a")], "a", "1.9.0"),
        other("Name requires WaveFlow 2.0.0 or newer (you have 1.9.0)")
    );
    let mut named = entry("a");
    named.asset = some("file.zip");
    let r = install_plugin_from_registry(&vec![named], "a", "3.0.0").unwrap();
    assert_eq!(r.url, "https://github.com/me/repo/releases/download/v1.2.0/file.zip");
}

#[test]
fn the_store_shows_what_is_installed() {
    let m = list_plugin_marketplace(entry("a"), some("1.1.0"), "2.0.0");
    assert!(m.installed);
    assert!(m.update_available);
    assert!(m.compatible);
    let m = list_plugin_marketplace(entry("a"), None, "1.0.0");
    assert!(!m.installed);
    assert!(!m.update_available);
    assert!(!m.compatible);
    assert_eq!(installed_version("a", Some(("a".to_owned(), "1".to_owned()))), some("1"));
    assert_eq!(installed_version("a", Some(("b".to_owned(), "1".to_owned()))), None);
}

#[test]
fn the_registry_is_asked_for_place_by_place() {
    assert_eq!(
        fetch_registry(true),
        other("offline mode is on; the plugin store is unavailable")
    );
    let f = fetch_registry(false).unwrap();
    assert_eq!(f.url(), Some("https://waveflow.app/api/plugins/registry"));
    let f = match f.after(SourceReply::Failed("one".to_owned())) {
        FetchStep::Next(f) => f,
        x => panic!("{x:?}"),
    };
    let f = match f.after(SourceReply::Failed("two".to_owned())) {
        FetchStep::Next(f) => f,
        x => panic!("{x:?}"),
    };
    assert_eq!(
        f.after(SourceReply::Failed("three".to_owned())),
        FetchStep::Fail(AppError::Other("three".to_owned()))
    );
    let f = fetch_registry(false).unwrap();
    assert_eq!(
        f.after(SourceReply::Registry(2)),
        FetchStep::Fail(AppError::Other(
            "unsupported plugin-registry schema_version 2 (this build supports 1); update WaveFlow"
                .to_owned()
        ))
    );
    let f = fetch_registry(false).unwrap();
    assert_eq!(f.after(SourceReply::Registry(1)), FetchStep::Use);
}

#[test]
fn not_everything_may_be_installed() {
    assert_eq!(may_install("a", false, false), Ok(()));
    assert_eq!(may_install("a", true, false), other("offline mode is on; can't install plugins"));
    assert_eq!(
        may_install("a", false, true),
        other("a ships with WaveFlow and can't be installed from the store")
    );
    assert!(may_install("A", false, false).is_err());
}

#[test]
fn a_download_has_a_limit() {
    assert_eq!(check_declared_length(None), Ok(()));
    assert_eq!(check_declared_length(Some(MAX_DOWNLOAD_BYTES)), Ok(()));
    assert_eq!(
        check_declared_length(Some(MAX_DOWNLOAD_BYTES + 1)),
        other("release asset too large: 67108865 bytes (max 67108864)")
    );
    assert_eq!(take_chunk(1, 2), Ok(3));
    assert_eq!(
        take_chunk(MAX_DOWNLOAD_BYTES, 1),
        other("release asset exceeds 67108864 bytes — refusing")
    );
    assert!(take_chunk(5, u64::MAX).is_err());
}

#[test]
fn an_archive_is_opened_and_held_to_the_registry() {
    let wasm = b"\0asm code";
    let hash = blake3::hash(wasm).to_hex().to_string();
    let zip = archive(&[("plugin.wasm", wasm), ("manifest.toml", b"id = \"a\"")]);
    let files = open_plugin_zip(&zip, "a", &hash).unwrap();
    assert_eq!(files.wasm, wasm.to_vec());
    assert_eq!(files.manifest_text, "id = \"a\"");

    let wrong = open_plugin_zip(&zip, "a", "beef");
    assert_eq!(
        wrong,
        other(&format!(
            "blake3 mismatch for a: registry pins beef, download is {hash} — refusing"
        ))
    );
    assert_eq!(
        open_plugin_zip(&archive(&[("manifest.toml", b"x")]), "a", &hash),
        other("plugin zip missing plugin.wasm")
    );
    assert_eq!(
        open_plugin_zip(&archive(&[("plugin.wasm", wasm)]), "a", &hash),
        other("plugin zip missing manifest.toml")
    );
    let broken = archive(&[("plugin.wasm", wasm), ("manifest.toml", b"\xff")]);
    match open_plugin_zip(&broken, "a", &hash) {
        Err(AppError::Other(m)) => assert!(m.starts_with("manifest.toml is not utf-8: "), "{m}"),
        x => panic!("{x:?}"),
    }
    match open_plugin_zip(&b"no archive".to_vec(), "a", &hash) {
        Err(AppError::Other(m)) => assert!(m.starts_with("open plugin zip: "), "{m}"),
        x => panic!("{x:?}"),
    }
    let large = vec![b' '; 0x4_0001];
    let zip = archive(&[("plugin.wasm", wasm), ("manifest.toml", &large)]);
    assert_eq!(
        open_plugin_zip(&zip, "a", &hash),
        other("manifest.toml exceeds 262144 bytes — refusing")
    );
    assert!(check_plugin_files(None, None, "a", &hash).is_err());
}

#[test]
fn a_file_of_an_archive_is_read_within_its_limit() {
    assert_eq!(read_zip_file(ZipMember::Missing, "x", 1), Ok(None));
    assert_eq!(read_zip_file(ZipMember::Content(vec![1]), "x", 1), Ok(Some(vec![1])));
    assert_eq!(
        read_zip_file(ZipMember::Content(vec![1, 2]), "x", 1),
        other("x exceeds 1 bytes — refusing")
    );
    assert_eq!(
        read_zip_file(ZipMember::Unreadable("why".to_owned()), "x", 1),
        other("read x from plugin zip: why")
    );
    assert_eq!(
        read_zip_file(ZipMember::Broken("why".to_owned()), "x", 1),
        Err(AppError::Io("why".to_owned()))
    );
}

#[test]
fn a_manifest_has_to_be_the_one_asked_for() {
    assert_eq!(check_manifest("a", "1", "w", "a", "1", "w"), Ok(()));
    assert_eq!(
        check_manifest("b", "1", "w", "a", "1", "w"),
        other("manifest id \"b\" does not match requested a")
    );
    assert_eq!(
        check_manifest("a", "2", "w", "a", "1", "w"),
        other("manifest version \"2\" does not match registry 1")
    );
    assert_eq!(
        check_manifest("a", "1", "v\"", "a", "1", "w"),
        other("manifest world \"v\\\"\" does not match registry w")
    );
}

#[test]
fn files_beside_the_code_come_out_of_the_archive() {
    let zip = archive(&[
        ("plugin.wasm", b"code"),
        ("assets/one.png", b"1"),
        ("assets/sub/two.png", b"22"),
        ("../assets/out.png", b"x"),
        ("assetsy/no.png", b"x"),
    ]);
    let files = plugin_assets(&zip).unwrap();
    let found: Vec<(&str, usize)> = files.iter().map(|f| (f.path.as_str(), f.content.len())).collect();
    assert_eq!(found, vec![("one.png", 1), ("sub/two.png", 2)]);
    assert!(plugin_assets(&b"no archive".to_vec()).is_err());
    assert_eq!(asset_path("assets\\a\\b"), some("a/b"));
    assert_eq!(asset_path("assets/"), None);
    assert_eq!(asset_path("other/a"), None);
    assert_eq!(asset_limit(0), MAX_DOWNLOAD_BYTES + 1);
    let file = || ZipEntry::File("assets/a".to_owned());
    assert_eq!(
        take_asset(&file(), 0, Ok(vec![0]), MAX_DOWNLOAD_BYTES),
        other("plugin assets exceed 67108864 bytes — refusing")
    );
    assert_eq!(
        take_asset(&ZipEntry::Unreadable("why".to_owned()), 3, Ok(Vec::new()), 0),
        other("read plugin zip entry 3: why")
    );
    assert_eq!(staging_dir("a"), ".staging-a");
}

#[test]
fn no_file_of_an_archive_leads_out() {
    let zip = archive(&[
        ("assets/a.png", b"1"),
        ("assets/../../x", b"2"),
        ("assets/../x", b"3"),
        ("assets/..", b"4"),
        ("/assets/b.png", b"5"),
        ("assets\\c.png", b"6"),
        ("assets/sub/../d.png", b"7"),
        ("assets/./Clé e.png", b"8"),
    ]);
    let files = plugin_assets(&zip).unwrap();
    let found: Vec<(&str, &[u8])> =
        files.iter().map(|f| (f.path.as_str(), f.content.as_slice())).collect();
    assert_eq!(
        found,
        [
            ("a.png", b"1".as_slice()),
            ("b.png", b"5".as_slice()),
            ("c.png", b"6".as_slice()),
            ("d.png", b"7".as_slice()),
            ("Clé e.png", b"8".as_slice()),
        ]
    );
    assert!(plugin_assets(&archive(&[])).unwrap().is_empty());
}

#[test]
fn assets_are_gathered_in_the_archive_s_order() {
    let zip = archive(&[("plugin.wasm", b"w"), ("assets/b", b"bb"), ("assets/a", b"a")]);
    let file = |name: &str| ZipEntry::File(name.to_owned());
    let entries = vec![file("plugin.wasm"), file("assets/b"), file("assets/a")];
    let files = gather_assets(&zip, &entries).unwrap();
    let found: Vec<(&str, &[u8])> =
        files.iter().map(|f| (f.path.as_str(), f.content.as_slice())).collect();
    assert_eq!(found, [("b", b"bb".as_slice()), ("a", b"a".as_slice())]);
    // What is no file of its own is passed over, and the first fault ends it.
    let entries = vec![ZipEntry::Directory, ZipEntry::Outside, file("assets/a")];
    assert_eq!(gather_assets(&zip, &entries).unwrap().len(), 1);
    let entries = vec![
        file("assets/none"),
        ZipEntry::Unreadable("first".to_owned()),
        ZipEntry::Unreadable("second".to_owned()),
    ];
    assert_eq!(gather_assets(&zip, &entries), other("read plugin zip entry 1: first"));
    assert!(gather_assets(&zip, &Vec::new()).unwrap().is_empty());
}
