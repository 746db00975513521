//! Installed plugins: what they are called, which of them count, and what may
//! be done with them.

use vstd::prelude::*;

use crate::decimal;
use crate::decimal::u64_text;
use crate::error;
use crate::error::AppError;
use crate::settings;
use crate::settings::{switch_or, switch_value, SettingWrite, ValueKind};
use crate::text;
use crate::text::{around, chars_of, comes_before, quote_char, same_text};

verus! {

/// How many favourites a plugin may have.
pub const MAX_PLUGIN_FAVORITES: usize = 1000;

/// How many artists a plugin is told of at most.
pub const MAX_LIBRARY_ARTISTS: i64 = 200;

// Names.

/// Whether a character may stand in a plugin's id.
pub open spec fn is_id_char(c: char) -> bool {
    ('a' <= c && c <= 'z') || text::is_digit(c) || c == '-'
}

/// Whether a text is a plugin's id.
pub open spec fn is_plugin_id(s: Seq<char>) -> bool {
    s.len() > 0 && forall|i: int| 0 <= i < s.len() ==> is_id_char(#[trigger] s[i])
}

/// The first character of a text that may not stand in a plugin's id.
pub open spec fn first_illegal(s: Seq<char>) -> Option<char>
    decreases s.len(),
{
    if s.len() == 0 {
        None
    } else if !is_id_char(s[0]) {
        Some(s[0])
    } else {
        first_illegal(s.drop_first())
    }
}

/// What is said of a text that is no plugin's id.
pub open spec fn id_complaint(s: Seq<char>) -> Seq<char> {
    match first_illegal(s) {
        Some(c) => "plugin id contains illegal character "@ + text::quoted_char(c)
            + " (allowed: [a-z0-9-])"@,
        None => "plugin id is empty"@,
    }
}

/// Whether a text is a plugin's id.
pub fn validate_plugin_id_chars(plugin_id: &str) -> (r: Result<(), AppError>)
    ensures
        r is Ok <==> is_plugin_id(plugin_id@),
        r matches Err(e) ==> error::says(e, id_complaint(plugin_id@)),
{
    let c = chars_of(plugin_id);
    if c.len() == 0 {
        return Err(AppError::Other("plugin id is empty".to_owned()));
    }
    let mut i: usize = 0;
    assert(plugin_id@.skip(0) =~= plugin_id@);
    while i < c.len()
        invariant
            c@ == plugin_id@,
            i <= c@.len(),
            first_illegal(plugin_id@.skip(i as int)) == first_illegal(plugin_id@),
            forall|j: int| 0 <= j < i ==> is_id_char(#[trigger] c@[j]),
        decreases c@.len() - i,
    {
        let x = c[i];
        assert(plugin_id@.skip(i as int)[0] == x);
        let ok = ('a' <= x && x <= 'z') || ('0' <= x && x <= '9') || x == '-';
        if !ok {
            assert(!is_id_char(plugin_id@[i as int]));
            return Err(
                AppError::Other(
                    around(
                        "plugin id contains illegal character ",
                        quote_char(x).as_str(),
                        " (allowed: [a-z0-9-])",
                    ),
                ),
            );
        }
        assert(plugin_id@.skip(i as int).drop_first() =~= plugin_id@.skip(i + 1));
        i = i + 1;
    }
    Ok(())
}

/// Where it is kept whether a plugin is on.
pub open spec fn enabled_key_of(id: Seq<char>) -> Seq<char> {
    "plugin."@ + id + ".enabled"@
}

/// Where a plugin's favourites are kept.
pub open spec fn favorites_key_of(id: Seq<char>) -> Seq<char> {
    "plugin."@ + id + ".favorites"@
}

/// Where it is kept whether a plugin is on.
pub fn enabled_key(plugin_id: &str) -> (r: String)
    ensures
        r@ == enabled_key_of(plugin_id@),
{
    around("plugin.", plugin_id, ".enabled")
}

/// Where a plugin's favourites are kept.
pub fn favorites_key(plugin_id: &str) -> (r: String)
    ensures
        r@ == favorites_key_of(plugin_id@),
{
    around("plugin.", plugin_id, ".favorites")
}

/// No two plugins share a setting, and no plugin keeps its favourites where it
/// is kept whether one is on.
pub proof fn plugins_share_no_setting(a: Seq<char>, b: Seq<char>)
    ensures
        a != b ==> enabled_key_of(a) != enabled_key_of(b),
        a != b ==> favorites_key_of(a) != favorites_key_of(b),
        enabled_key_of(a) != favorites_key_of(b),
{
    reveal_strlit("plugin.");
    reveal_strlit(".enabled");
    reveal_strlit(".favorites");
    if a != b {
        if enabled_key_of(a) == enabled_key_of(b) {
            let k = enabled_key_of(a);
            assert(k.len() == 15 + a.len());
            assert(enabled_key_of(b).len() == 15 + b.len());
            assert(a.len() == b.len());
            assert(a =~= k.subrange(7, 7 + a.len() as int));
            assert(b =~= k.subrange(7, 7 + b.len() as int));
        }
        if favorites_key_of(a) == favorites_key_of(b) {
            let k = favorites_key_of(a);
            assert(k.len() == 17 + a.len());
            assert(favorites_key_of(b).len() == 17 + b.len());
            assert(a.len() == b.len());
            assert(a =~= k.subrange(7, 7 + a.len() as int));
            assert(b =~= k.subrange(7, 7 + b.len() as int));
        }
    }
    assert(enabled_key_of(a).last() == 'd');
    assert(favorites_key_of(b).last() == 's');
}

// What an installed plugin is.

/// A file that a plugin brings along.
#[derive(PartialEq, Eq, Debug)]
pub struct PluginAssetInfo {
    pub filename: String,
    pub description: Option<String>,
}

/// What a plugin may do.
#[derive(PartialEq, Eq, Debug)]
pub struct PluginPermissionsInfo {
    pub http: Vec<String>,
    pub storage_read: bool,
    pub storage_state: bool,
    pub library_read_artists: bool,
}

/// What a plugin says of itself.
#[derive(PartialEq, Eq, Debug)]
pub struct Manifest {
    pub id: String,
    pub name: String,
    pub version: String,
    pub author: String,
    pub world: String,
    pub description: Option<String>,
    pub homepage: Option<String>,
    pub license: Option<String>,
    pub permissions: PluginPermissionsInfo,
    pub assets: Vec<PluginAssetInfo>,
}

/// An installed plugin, as the interface is told it.
#[derive(PartialEq, Eq, Debug)]
pub struct PluginInfo {
    pub id: String,
    pub name: String,
    pub version: String,
    pub author: String,
    pub world: String,
    pub description: Option<String>,
    pub homepage: Option<String>,
    pub license: Option<String>,
    pub permissions: PluginPermissionsInfo,
    pub assets: Vec<PluginAssetInfo>,
    pub enabled: bool,
    /// Whether the plugin comes with the application.
    pub bundled: bool,
}

/// An installed plugin, as the interface is told it.
pub open spec fn info_of(manifest: Manifest, enabled: bool, bundled: bool) -> PluginInfo {
    PluginInfo {
        id: manifest.id,
        name: manifest.name,
        version: manifest.version,
        author: manifest.author,
        world: manifest.world,
        description: manifest.description,
        homepage: manifest.homepage,
        license: manifest.license,
        permissions: manifest.permissions,
        assets: manifest.assets,
        enabled,
        bundled,
    }
}

/// An installed plugin, as the interface is told it.
pub fn manifest_to_info(manifest: Manifest, enabled: bool, bundled: bool) -> (r: PluginInfo)
    ensures
        r == info_of(manifest, enabled, bundled),
{
    PluginInfo {
        id: manifest.id,
        name: manifest.name,
        version: manifest.version,
        author: manifest.author,
        world: manifest.world,
        description: manifest.description,
        homepage: manifest.homepage,
        license: manifest.license,
        permissions: manifest.permissions,
        assets: manifest.assets,
        enabled,
        bundled,
    }
}

/// A directory of plugins holds one that counts where the manifest could be read
/// and names the directory.
pub open spec fn counts(entry: (String, Option<Manifest>)) -> bool {
    entry.1 matches Some(m) && m.id@ == entry.0@
}

/// The plugins of a directory that count.
pub open spec fn counting(entries: Seq<(String, Option<Manifest>)>) -> Seq<Manifest>
    decreases entries.len(),
{
    if entries.len() == 0 {
        seq![]
    } else {
        let earlier = counting(entries.drop_last());
        if counts(entries.last()) {
            earlier.push(entries.last().1->0)
        } else {
            earlier
        }
    }
}

/// The plugins of a directory that count. Each entry is a directory's name with
/// the manifest in it.
pub fn walk_install_root(entries: Vec<(String, Option<Manifest>)>) -> (v: Vec<Manifest>)
    ensures
        v@ == counting(entries@),
{
    let ghost all = entries@;
    let mut rest = entries;
    let mut v: Vec<Manifest> = Vec::new();
    let ghost mut n: int = 0;
    assert(all.skip(0) =~= all);
    assert(counting(all.take(0)) =~= seq![]);
    while rest.len() > 0
        invariant
            0 <= n <= all.len(),
            rest@ == all.skip(n),
            v@ == counting(all.take(n)),
        decreases rest@.len(),
    {
        let (name, manifest) = rest.remove(0);
        proof {
            assert(all.take(n + 1).drop_last() =~= all.take(n));
            assert(all.take(n + 1).last() == all[n]);
            assert(rest@ =~= all.skip(n + 1));
            n = n + 1;
        }
        if let Some(m) = manifest {
            if same_text(m.id.as_str(), name.as_str()) {
                v.push(m);
            }
        }
    }
    assert(all.take(n) =~= all);
    v
}

/// Whether one of the plugins has an id.
pub open spec fn has_id(plugins: Seq<Manifest>, id: Seq<char>) -> bool {
    exists|i: int| 0 <= i < plugins.len() && (#[trigger] plugins[i]).id@ == id
}

/// Of some plugins those whose id none of the bundled ones has.
pub open spec fn not_shadowed(bundled: Seq<Manifest>, sideloaded: Seq<Manifest>) -> Seq<Manifest>
    decreases sideloaded.len(),
{
    if sideloaded.len() == 0 {
        seq![]
    } else {
        let earlier = not_shadowed(bundled, sideloaded.drop_last());
        if has_id(bundled, sideloaded.last().id@) {
            earlier
        } else {
            earlier.push(sideloaded.last())
        }
    }
}

fn any_has_id(plugins: &Vec<Manifest>, count: usize, id: &str) -> (r: bool)
    requires
        count <= plugins@.len(),
    ensures
        r == has_id(plugins@.take(count as int), id@),
{
    let mut i: usize = 0;
    while i < count
        invariant
            i <= count <= plugins@.len(),
            forall|j: int| 0 <= j < i ==> (#[trigger] plugins@[j]).id@ != id@,
        decreases count - i,
    {
        if same_text(plugins[i].id.as_str(), id) {
            assert(plugins@.take(count as int)[i as int].id@ == id@);
            return true;
        }
        i = i + 1;
    }
    assert forall|j: int| 0 <= j < count implies (#[trigger] plugins@.take(count as int)[j]).id@
        != id@ by {
        assert(plugins@[j].id@ != id@);
    }
    false
}

/// The plugins of both directories: the bundled ones, and of the others those
/// that none of them shadows.
pub fn installed_plugins(bundled: Vec<Manifest>, sideloaded: Vec<Manifest>) -> (v: Vec<Manifest>)
    ensures
        v@ == bundled@ + not_shadowed(bundled@, sideloaded@),
{
    let ghost first = bundled@;
    let ghost all = sideloaded@;
    let count: usize = bundled.len();
    let mut v = bundled;
    let mut rest = sideloaded;
    let ghost mut n: int = 0;
    assert(all.skip(0) =~= all);
    assert(first + not_shadowed(first, all.take(0)) =~= first);
    while rest.len() > 0
        invariant
            0 <= n <= all.len(),
            rest@ == all.skip(n),
            count == first.len(),
            count <= v@.len(),
            v@ == first + not_shadowed(first, all.take(n)),
        decreases rest@.len(),
    {
        let m = rest.remove(0);
        proof {
            assert(all.take(n + 1).drop_last() =~= all.take(n));
            assert(all.take(n + 1).last() == all[n]);
            assert(rest@ =~= all.skip(n + 1));
            assert(v@.take(count as int) =~= first);
            n = n + 1;
        }
        if !any_has_id(&v, count, m.id.as_str()) {
            let ghost earlier = v@;
            v.push(m);
            assert(v@ =~= first + not_shadowed(first, all.take(n)));
        }
    }
    assert(all.take(n) =~= all);
    v
}

/// A bundled plugin is never shadowed, and none that is not bundled comes under
/// the id of one that is.
pub proof fn a_bundled_plugin_owns_its_id(bundled: Seq<Manifest>, sideloaded: Seq<Manifest>)
    ensures
        forall|i: int|
            0 <= i < not_shadowed(bundled, sideloaded).len() ==> !has_id(
                bundled,
                (#[trigger] not_shadowed(bundled, sideloaded)[i]).id@,
            ),
    decreases sideloaded.len(),
{
    if sideloaded.len() > 0 {
        a_bundled_plugin_owns_its_id(bundled, sideloaded.drop_last());
    }
}

// The order in which they are listed.

/// What a plugin is listed by.
pub open spec fn list_key(p: PluginInfo) -> Seq<char> {
    text::unicode_lowercase(p.name@)
}

/// The place of a plugin in a list: before the first one that it precedes.
pub open spec fn place(listed: Seq<PluginInfo>, p: PluginInfo) -> int
    decreases listed.len(),
{
    if listed.len() == 0 || text::precedes(list_key(p), list_key(listed[0])) {
        0
    } else {
        1 + place(listed.drop_first(), p)
    }
}

/// The plugins in the order in which they are listed: each takes its place among
/// those that came before it.
pub open spec fn listed(plugins: Seq<PluginInfo>) -> Seq<PluginInfo>
    decreases plugins.len(),
{
    if plugins.len() == 0 {
        seq![]
    } else {
        let earlier = listed(plugins.drop_last());
        earlier.insert(place(earlier, plugins.last()), plugins.last())
    }
}

proof fn lemma_place(l: Seq<PluginInfo>, p: PluginInfo, k: int)
    requires
        0 <= k <= l.len(),
        forall|j: int|
            0 <= j < k ==> !text::precedes(list_key(p), list_key(#[trigger] l[j])),
        k < l.len() ==> text::precedes(list_key(p), list_key(l[k])),
    ensures
        place(l, p) == k,
    decreases l.len(),
{
    if l.len() > 0 && !text::precedes(list_key(p), list_key(l[0])) {
        let rest = l.drop_first();
        assert forall|j: int| 0 <= j < k - 1 implies !text::precedes(
            list_key(p),
            list_key(#[trigger] rest[j]),
        ) by {
            assert(rest[j] == l[j + 1]);
        }
        lemma_place(rest, p, k - 1);
    }
}

proof fn lemma_place_bounds(l: Seq<PluginInfo>, p: PluginInfo)
    ensures
        0 <= place(l, p) <= l.len(),
        forall|j: int|
            0 <= j < place(l, p) ==> !text::precedes(list_key(p), list_key(#[trigger] l[j])),
        place(l, p) < l.len() ==> text::precedes(list_key(p), list_key(l[place(l, p)])),
    decreases l.len(),
{
    if l.len() > 0 && !text::precedes(list_key(p), list_key(l[0])) {
        let rest = l.drop_first();
        lemma_place_bounds(rest, p);
        assert forall|j: int| 0 <= j < place(l, p) implies !text::precedes(
            list_key(p),
            list_key(#[trigger] l[j]),
        ) by {
            if j > 0 {
                assert(rest[j - 1] == l[j]);
            }
        }
    }
}

/// The plugins in the order in which they are listed.
pub fn list_installed_plugins(plugins: Vec<PluginInfo>) -> (v: Vec<PluginInfo>)
    ensures
        v@ == listed(plugins@),
{
    let ghost all = plugins@;
    let mut rest = plugins;
    let mut v: Vec<PluginInfo> = Vec::new();
    let ghost mut n: int = 0;
    assert(all.skip(0) =~= all);
    assert(listed(all.take(0)) =~= seq![]);
    while rest.len() > 0
        invariant
            0 <= n <= all.len(),
            rest@ == all.skip(n),
            v@ == listed(all.take(n)),
        decreases rest@.len(),
    {
        let p = rest.remove(0);
        let key = p.name.as_str().to_lowercase();
        let mut k: usize = 0;
        while k < v.len() && !comes_before(
            key.as_str(),
            v[k].name.as_str().to_lowercase().as_str(),
        )
            invariant
                k <= v@.len(),
                key@ == list_key(p),
                forall|j: int|
                    0 <= j < k ==> !text::precedes(list_key(p), list_key(#[trigger] v@[j])),
            decreases v@.len() - k,
        {
            k = k + 1;
        }
        proof {
            lemma_place(v@, p, k as int);
            assert(all.take(n + 1).drop_last() =~= all.take(n));
            assert(all.take(n + 1).last() == all[n]);
            assert(rest@ =~= all.skip(n + 1));
            n = n + 1;
        }
        v.insert(k, p);
    }
    assert(all.take(n) =~= all);
    v
}

/// Whether no plugin of a list precedes an earlier one.
pub open spec fn in_order(l: Seq<PluginInfo>) -> bool {
    forall|i: int, j: int|
        0 <= i < j < l.len() ==> !text::precedes(
            list_key(#[trigger] l[j]),
            list_key(#[trigger] l[i]),
        )
}

/// The list is ordered by name, whatever the case.
pub proof fn the_list_is_in_order(plugins: Seq<PluginInfo>)
    ensures
        in_order(listed(plugins)),
    decreases plugins.len(),
{
    if plugins.len() > 0 {
        let p = plugins.last();
        let before = listed(plugins.drop_last());
        the_list_is_in_order(plugins.drop_last());
        lemma_place_bounds(before, p);
        let k = place(before, p);
        let after = before.insert(k, p);
        assert forall|i: int, j: int| 0 <= i < j < after.len() implies !text::precedes(
            list_key(#[trigger] after[j]),
            list_key(#[trigger] after[i]),
        ) by {
            let x = if i < k {
                before[i]
            } else if i == k {
                p
            } else {
                before[i - 1]
            };
            let y = if j < k {
                before[j]
            } else if j == k {
                p
            } else {
                before[j - 1]
            };
            assert(after[i] == x);
            assert(after[j] == y);
            if i == k {
                // The element that `p` precedes, or one behind it, does not precede `p`.
                let s = before[k];
                text::lemma_one_before(list_key(p), list_key(y));
                if text::precedes(list_key(y), list_key(p)) {
                    text::lemma_before_transitive(list_key(y), list_key(p), list_key(s));
                    if j - 1 > k {
                        assert(!text::precedes(list_key(before[j - 1]), list_key(before[k])));
                    } else {
                        text::lemma_not_before_itself(list_key(s));
                    }
                }
            }
        }
    }
}

/// The list holds every plugin as often as it is installed, and nothing else.
pub proof fn the_list_is_complete(plugins: Seq<PluginInfo>)
    ensures
        listed(plugins).to_multiset() == plugins.to_multiset(),
    decreases plugins.len(),
{
    if plugins.len() > 0 {
        let p = plugins.last();
        let rest = plugins.drop_last();
        let before = listed(rest);
        the_list_is_complete(rest);
        lemma_place_bounds(before, p);
        let k = place(before, p);
        vstd::seq_lib::to_multiset_insert(before, k, p);
        vstd::seq_lib::to_multiset_build(rest, p);
        assert(rest.push(p) =~= plugins);
    } else {
        assert(listed(plugins) =~= plugins);
    }
}

// What may be done with a plugin.

/// Whether a plugin is on: unless a stored setting says otherwise.
pub fn read_enabled(value: &Option<String>) -> (r: bool)
    ensures
        r == settings::on_or(text::opt_text(*value), true),
{
    switch_or(value, true)
}

/// What is found where a plugin's manifest should be.
#[derive(PartialEq, Eq, Debug)]
pub enum ManifestState {
    /// A manifest that names this id.
    Names(String),
    /// Nothing.
    Missing,
    /// Something that is no manifest.
    Unreadable,
}

/// Whether a plugin with this id is what is installed.
pub open spec fn is_installed(found: ManifestState, id: Seq<char>) -> bool {
    found matches ManifestState::Names(n) && n@ == id
}

/// Turning a plugin on or off: what is to be stored. The id must be one, and the
/// plugin installed under it.
pub fn set_plugin_enabled(plugin_id: &str, found: &ManifestState, enabled: bool) -> (r: Result<
    SettingWrite,
    AppError,
>)
    ensures
        r is Ok <==> is_plugin_id(plugin_id@) && is_installed(*found, plugin_id@),
        r matches Ok(w) ==> w@ == (settings::SettingNote::Put {
            key: enabled_key_of(plugin_id@),
            value: settings::switch_text(enabled),
            kind: ValueKind::Bool,
        }),
        r matches Err(e) ==> error::says(
            e,
            if is_plugin_id(plugin_id@) {
                "plugin not installed (or manifest id mismatch): "@ + plugin_id@
            } else {
                id_complaint(plugin_id@)
            },
        ),
{
    match validate_plugin_id_chars(plugin_id) {
        Err(e) => return Err(e),
        Ok(_) => {},
    }
    let ok = match found {
        ManifestState::Names(n) => same_text(n.as_str(), plugin_id),
        _ => false,
    };
    if !ok {
        let m = around("plugin not installed (or manifest id mismatch): ", plugin_id, "");
        proof {
            reveal_strlit("");
            assert(m@ =~= "plugin not installed (or manifest id mismatch): "@ + plugin_id@);
        }
        return Err(AppError::Other(m));
    }
    Ok(
        SettingWrite::Put {
            key: enabled_key(plugin_id),
            value: switch_value(enabled).to_owned(),
            kind: ValueKind::Bool,
        },
    )
}

/// A plugin is found on or off as it was turned.
pub proof fn a_turned_plugin_is_found_so(
    settings: Map<Seq<char>, Seq<char>>,
    id: Seq<char>,
    enabled: bool,
)
    ensures
        settings::on_or(
            settings::setting(
                settings::settings_after(
                    settings,
                    settings::SettingNote::Put {
                        key: enabled_key_of(id),
                        value: settings::switch_text(enabled),
                        kind: ValueKind::Bool,
                    },
                ),
                enabled_key_of(id),
            ),
            true,
        ) == enabled,
        settings::on_or(
            settings::setting(
                settings::settings_after(
                    settings,
                    settings::SettingNote::Remove { key: enabled_key_of(id) },
                ),
                enabled_key_of(id),
            ),
            true,
        ),
{
    settings::a_stored_switch_reads_back(enabled, true);
}

/// Whether a plugin may be removed, before anything is looked at on disk: its id
/// must be one, and it must not come with the application.
pub fn may_uninstall(plugin_id: &str, bundled: bool) -> (r: Result<(), AppError>)
    ensures
        r is Ok <==> is_plugin_id(plugin_id@) && !bundled,
        r matches Err(e) ==> error::says(
            e,
            if is_plugin_id(plugin_id@) {
                "plugin "@ + plugin_id@
                    + " is bundled with WaveFlow and cannot be uninstalled (disable it instead)"@
            } else {
                id_complaint(plugin_id@)
            },
        ),
{
    match validate_plugin_id_chars(plugin_id) {
        Err(e) => return Err(e),
        Ok(_) => {},
    }
    if bundled {
        return Err(
            AppError::Other(
                around(
                    "plugin ",
                    plugin_id,
                    " is bundled with WaveFlow and cannot be uninstalled (disable it instead)",
                ),
            ),
        );
    }
    Ok(())
}

/// What removing a plugin takes.
#[derive(PartialEq, Eq, Debug)]
pub struct Uninstall {
    /// Whether playback is stopped first.
    pub stop_stream: bool,
    /// What is stored of the plugin afterwards.
    pub setting: SettingWrite,
}

/// What removing a plugin takes, once what is installed under its id is known.
/// Another plugin's files are left alone; where there is no manifest at all what
/// is left of the plugin may go. A stream that no track of the library stands
/// for is stopped.
pub fn uninstall_plugin(plugin_id: &str, found: &ManifestState, current_track_id: i64) -> (r: Result<
    Uninstall,
    AppError,
>)
    ensures
        r is Ok <==> is_installed(*found, plugin_id@) || found is Missing,
        r matches Ok(u) ==> {
            &&& u.stop_stream == (current_track_id < 0)
            &&& u.setting@ == (settings::SettingNote::Remove { key: enabled_key_of(plugin_id@) })
        },
        r matches Err(e) ==> error::says(
            e,
            "plugin manifest present but id mismatch (or corrupt): "@ + plugin_id@,
        ),
{
    let ok = match found {
        ManifestState::Names(n) => same_text(n.as_str(), plugin_id),
        ManifestState::Missing => true,
        ManifestState::Unreadable => false,
    };
    if !ok {
        let m = around("plugin manifest present but id mismatch (or corrupt): ", plugin_id, "");
        proof {
            reveal_strlit("");
            assert(m@ =~= "plugin manifest present but id mismatch (or corrupt): "@ + plugin_id@);
        }
        return Err(AppError::Other(m));
    }
    Ok(
        Uninstall {
            stop_stream: current_track_id < 0,
            setting: SettingWrite::Remove { key: enabled_key(plugin_id) },
        },
    )
}

/// Whether a plugin may be called: its id must be one, and it must be on.
pub fn source_preamble(plugin_id: &str, stored: &Option<String>) -> (r: Result<(), AppError>)
    ensures
        r is Ok <==> is_plugin_id(plugin_id@) && settings::on_or(text::opt_text(*stored), true),
        r matches Err(e) ==> error::says(
            e,
            if is_plugin_id(plugin_id@) {
                "plugin disabled: "@ + plugin_id@
            } else {
                id_complaint(plugin_id@)
            },
        ),
{
    match validate_plugin_id_chars(plugin_id) {
        Err(e) => return Err(e),
        Ok(_) => {},
    }
    if !read_enabled(stored) {
        let m = around("plugin disabled: ", plugin_id, "");
        proof {
            reveal_strlit("");
            assert(m@ =~= "plugin disabled: "@ + plugin_id@);
        }
        return Err(AppError::Other(m));
    }
    Ok(())
}

/// A favourite of a plugin.
#[derive(PartialEq, Eq, Debug)]
pub struct PluginFavorite {
    pub id: String,
    pub title: String,
    pub artist: String,
    pub album: Option<String>,
    pub artwork_url: Option<String>,
}

/// Whether a plugin's favourites may be stored: its id must be one, and there
/// must not be too many. Gives the key that they are stored under.
pub fn set_plugin_favorites(plugin_id: &str, favorites: &Vec<PluginFavorite>) -> (r: Result<
    String,
    AppError,
>)
    ensures
        r is Ok <==> is_plugin_id(plugin_id@) && favorites@.len() <= MAX_PLUGIN_FAVORITES,
        is_plugin_id(plugin_id@) ==> (r is Err <==> favorites@.len() > 1000),
        r matches Ok(key) ==> key@ == favorites_key_of(plugin_id@),
        r matches Err(e) ==> error::says(
            e,
            if is_plugin_id(plugin_id@) {
                "too many favorites: "@ + decimal::nat_text(favorites@.len()) + " (max 1000)"@
            } else {
                id_complaint(plugin_id@)
            },
        ),
{
    match validate_plugin_id_chars(plugin_id) {
        Err(e) => return Err(e),
        Ok(_) => {},
    }
    if favorites.len() > MAX_PLUGIN_FAVORITES {
        return Err(
            AppError::Other(
                around(
                    "too many favorites: ",
                    u64_text(favorites.len() as u64).as_str(),
                    " (max 1000)",
                ),
            ),
        );
    }
    Ok(favorites_key(plugin_id))
}

/// A plugin's favourites: none where nothing, or nothing that can be read, is
/// stored.
pub fn get_plugin_favorites(stored: Option<Vec<PluginFavorite>>) -> (v: Vec<PluginFavorite>)
    ensures
        v@ == (match stored {
            Some(l) => l@,
            None => seq![],
        }),
{
    match stored {
        Some(l) => l,
        None => Vec::new(),
    }
}

// What a plugin is told, and what it tells.

/// An artist of the library, as the database has it.
#[derive(PartialEq, Eq, Debug)]
pub struct ArtistRow {
    pub id: i64,
    pub name: String,
    pub track_count: i64,
}

/// An artist of the library, as a plugin is told it.
#[derive(PartialEq, Eq, Debug)]
pub struct LibraryArtist {
    pub id: u64,
    pub name: String,
    pub track_count: u32,
}

/// How many artists are asked for.
pub fn artist_limit(limit: i64) -> (r: i64)
    ensures
        r == (if limit < 1 {
            1
        } else if limit > MAX_LIBRARY_ARTISTS {
            MAX_LIBRARY_ARTISTS
        } else {
            limit
        }),
        1 <= r <= 200,
        1 <= limit <= 200 ==> r == limit,
        limit > 200 ==> r == 200,
{
    if limit < 1 {
        1
    } else if limit > MAX_LIBRARY_ARTISTS {
        MAX_LIBRARY_ARTISTS
    } else {
        limit
    }
}

/// A count as a plugin is told it: the largest where it is below zero or larger.
pub open spec fn told_count(n: i64) -> u32 {
    if 0 <= n <= u32::MAX {
        n as u32
    } else {
        u32::MAX
    }
}

/// The artists that a plugin is told, of those that the database has.
pub open spec fn told_artists(rows: Seq<ArtistRow>) -> Seq<LibraryArtist>
    decreases rows.len(),
{
    if rows.len() == 0 {
        seq![]
    } else {
        let earlier = told_artists(rows.drop_last());
        let row = rows.last();
        if row.id < 0 {
            earlier
        } else {
            earlier.push(
                LibraryArtist {
                    id: row.id as u64,
                    name: row.name,
                    track_count: told_count(row.track_count),
                },
            )
        }
    }
}

/// The artists that a plugin is told, of those that the database has.
pub fn load_library_artist_snapshot(rows: &Vec<ArtistRow>) -> (v: Vec<LibraryArtist>)
    ensures
        v@ == told_artists(rows@),
{
    let mut v: Vec<LibraryArtist> = Vec::new();
    let total: usize = rows.len();
    let mut i: usize = 0;
    assert(told_artists(rows@.take(0)) =~= seq![]);
    while i < total
        invariant
            total == rows@.len(),
            i <= total,
            v@ == told_artists(rows@.take(i as int)),
        decreases total - i,
    {
        assert(rows@.take(i + 1).drop_last() =~= rows@.take(i as int));
        let row = &rows[i];
        if row.id >= 0 {
            let track_count: u32 = if row.track_count >= 0 && row.track_count <= u32::MAX as i64 {
                row.track_count as u32
            } else {
                u32::MAX
            };
            v.push(LibraryArtist { id: row.id as u64, name: row.name.clone(), track_count });
        }
        i = i + 1;
    }
    assert(rows@.take(total as int) =~= rows@);
    v
}

/// An entry that a plugin offers, as the interface is told it.
#[derive(PartialEq, Eq, Debug)]
pub struct PluginEntry {
    pub label: String,
    pub query: String,
    pub icon_url: Option<String>,
}

/// A track that a plugin offers, as the interface is told it.
#[derive(PartialEq, Eq, Debug)]
pub struct PluginTrack {
    pub id: String,
    pub title: String,
    pub artist: String,
    pub album: Option<String>,
    pub duration_ms: u32,
    pub artwork_url: Option<String>,
    pub icy_url: Option<String>,
}

/// Where a plugin's own pages are reached.
#[derive(PartialEq, Eq, Debug)]
pub struct PluginUiMountPoint {
    pub sidebar_label: String,
    pub sidebar_icon: Option<String>,
    pub initial_path: String,
}

// What holds of all of them.

/// An id is made of small letters of ASCII, digits and hyphens, one at least.
pub proof fn an_id_is_made_of_these(s: Seq<char>)
    ensures
        is_plugin_id(s) <==> s.len() > 0 && forall|i: int|
            0 <= i < s.len() ==> ('a' <= #[trigger] s[i] <= 'z' || '0' <= s[i] <= '9' || s[i] == '-'),
{
    if is_plugin_id(s) {
        assert forall|i: int| 0 <= i < s.len() implies ('a' <= #[trigger] s[i] <= 'z' || '0' <= s[i]
            <= '9' || s[i] == '-') by {
            assert(is_id_char(s[i]));
        }
    }
}

/// The character that is complained of is the first that may not stand in an id.
pub proof fn the_first_illegal_character_is_named(s: Seq<char>, k: int)
    requires
        0 <= k <= s.len(),
        k < s.len() ==> !('a' <= s[k] <= 'z' || '0' <= s[k] <= '9' || s[k] == '-'),
        forall|j: int|
            0 <= j < k ==> ('a' <= #[trigger] s[j] <= 'z' || '0' <= s[j] <= '9' || s[j] == '-'),
    ensures
        k < s.len() ==> first_illegal(s) == Some(s[k]),
        k == s.len() ==> first_illegal(s) is None,
        k < s.len() ==> id_complaint(s) == "plugin id contains illegal character "@
            + text::quoted_char(s[k]) + " (allowed: [a-z0-9-])"@,
        s.len() == 0 ==> id_complaint(s) == "plugin id is empty"@,
    decreases s.len(),
{
    if k > 0 {
        assert(is_id_char(s[0]));
        let rest = s.drop_first();
        assert forall|j: int| 0 <= j < k - 1 implies ('a' <= #[trigger] rest[j] <= 'z' || '0'
            <= rest[j] <= '9' || rest[j] == '-') by {
            assert(rest[j] == s[j + 1]);
        }
        the_first_illegal_character_is_named(rest, k - 1);
    }
}

/// A plugin's settings are kept under its own id.
pub proof fn settings_are_kept_under_the_id(id: Seq<char>)
    ensures
        enabled_key_of(id) == "plugin."@ + id + ".enabled"@,
        favorites_key_of(id) == "plugin."@ + id + ".favorites"@,
{
}

/// The interface is told of a plugin what its manifest says, each thing in its place.
pub proof fn a_plugin_is_told_by_its_manifest(m: Manifest, enabled: bool, bundled: bool)
    ensures
        ({
            let told = info_of(m, enabled, bundled);
            &&& told.id == m.id
            &&& told.name == m.name
            &&& told.version == m.version
            &&& told.author == m.author
            &&& told.world == m.world
            &&& told.description == m.description
            &&& told.homepage == m.homepage
            &&& told.license == m.license
            &&& told.permissions == m.permissions
            &&& told.assets == m.assets
            &&& told.enabled == enabled
            &&& told.bundled == bundled
        }),
{
}

/// One more directory adds its plugin behind the others where its manifest names the
/// directory, and nothing where it does not.
pub proof fn a_directory_holds_the_plugin_it_is_named_after(
    entries: Seq<(String, Option<Manifest>)>,
    name: String,
    m: Manifest,
)
    ensures
        counting(Seq::<(String, Option<Manifest>)>::empty()).len() == 0,
        counting(entries.push((name, None))) == counting(entries),
        m.id@ == name@ ==> counting(entries.push((name, Some(m)))) == counting(entries).push(m),
        m.id@ != name@ ==> counting(entries.push((name, Some(m)))) == counting(entries),
{
    assert(entries.push((name, None)).drop_last() =~= entries);
    assert(entries.push((name, Some(m))).drop_last() =~= entries);
}

/// One more plugin that was put there is listed behind the others, unless a bundled one
/// has its id.
pub proof fn a_plugin_counts_unless_its_id_is_taken(
    bundled: Seq<Manifest>,
    sideloaded: Seq<Manifest>,
    m: Manifest,
)
    ensures
        not_shadowed(bundled, Seq::<Manifest>::empty()).len() == 0,
        (forall|i: int| 0 <= i < bundled.len() ==> (#[trigger] bundled[i]).id@ != m.id@)
            ==> not_shadowed(bundled, sideloaded.push(m)) == not_shadowed(bundled, sideloaded).push(
            m,
        ),
        (exists|i: int| 0 <= i < bundled.len() && (#[trigger] bundled[i]).id@ == m.id@)
            ==> not_shadowed(bundled, sideloaded.push(m)) == not_shadowed(bundled, sideloaded),
{
    assert(sideloaded.push(m).drop_last() =~= sideloaded);
}

/// Plugins are listed by their names in lower case, and of two with one name the one that
/// came first comes first.
pub proof fn names_decide_the_order(plugins: Seq<PluginInfo>, p: PluginInfo)
    ensures
        forall|i: int, j: int|
            0 <= i < j < listed(plugins).len() ==> !text::precedes(
                text::unicode_lowercase((#[trigger] listed(plugins)[j]).name@),
                text::unicode_lowercase((#[trigger] listed(plugins)[i]).name@),
            ),
        ({
            let earlier = listed(plugins);
            let at = place(earlier, p);
            &&& 0 <= at <= earlier.len()
            &&& listed(plugins.push(p)) == earlier.insert(at, p)
            &&& at < earlier.len() ==> text::precedes(
                text::unicode_lowercase(p.name@),
                text::unicode_lowercase(earlier[at].name@),
            )
            &&& forall|i: int|
                0 <= i < at ==> !text::precedes(
                    text::unicode_lowercase(p.name@),
                    text::unicode_lowercase((#[trigger] earlier[i]).name@),
                )
        }),
{
    the_list_is_in_order(plugins);
    assert(plugins.push(p).drop_last() =~= plugins);
    lemma_its_place(listed(plugins), p);
}

proof fn lemma_its_place(l: Seq<PluginInfo>, p: PluginInfo)
    ensures
        0 <= place(l, p) <= l.len(),
        place(l, p) < l.len() ==> text::precedes(list_key(p), list_key(l[place(l, p)])),
        forall|i: int|
            0 <= i < place(l, p) ==> !text::precedes(list_key(p), list_key(#[trigger] l[i])),
    decreases l.len(),
{
    if l.len() > 0 && !text::precedes(list_key(p), list_key(l[0])) {
        let rest = l.drop_first();
        lemma_its_place(rest, p);
        assert forall|i: int| 0 <= i < place(l, p) implies !text::precedes(
            list_key(p),
            list_key(#[trigger] l[i]),
        ) by {
            if i > 0 {
                assert(rest[i - 1] == l[i]);
            }
        }
    }
}

/// A plugin is installed where a manifest names it, and not where there is none, another
/// one's, or none that can be read.
pub proof fn a_manifest_says_what_is_installed(name: String, id: Seq<char>)
    ensures
        is_installed(ManifestState::Names(name), id) <==> name@ == id,
        !is_installed(ManifestState::Missing, id),
        !is_installed(ManifestState::Unreadable, id),
{
}

/// A plugin is told of each artist by its own id, name and count, in the library's order;
/// an artist without a proper id is left out, and a count that does not fit is the largest.
pub proof fn an_artist_is_told_by_its_row(rows: Seq<ArtistRow>, row: ArtistRow)
    ensures
        told_artists(Seq::<ArtistRow>::empty()).len() == 0,
        row.id < 0 ==> told_artists(rows.push(row)) == told_artists(rows),
        row.id >= 0 ==> {
            let told = told_artists(rows.push(row));
            &&& told.len() == told_artists(rows).len() + 1
            &&& told.drop_last() == told_artists(rows)
            &&& told.last().id == row.id
            &&& told.last().name == row.name
            &&& 0 <= row.track_count <= 4_294_967_295 ==> told.last().track_count
                == row.track_count
            &&& row.track_count < 0 || row.track_count > 4_294_967_295 ==> told.last().track_count
                == 4_294_967_295
        },
{
    assert(rows.push(row).drop_last() =~= rows);
    if row.id >= 0 {
        assert(told_artists(rows.push(row)).drop_last() =~= told_artists(rows));
    }
}

} // verus!
