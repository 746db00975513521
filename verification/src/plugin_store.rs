//! Installing plugins from the registry: what is fetched, what is refused, and
//! what ends up on disk.

use vstd::prelude::*;
use vstd::string::StringExecFns;

use crate::decimal;
use crate::decimal::{parse_nat, u64_text};
use crate::digest;
use crate::digest::hash_file_blake3;
use crate::error;
use crate::error::AppError;
use crate::plugins;
use crate::plugins::validate_plugin_id_chars;
use crate::text;
use crate::text::{around, before, begins_with, chars_of, quote_text, same_text, split, string_of, utf8_text};

verus! {

/// The version of the registry's form that is understood.
pub const SUPPORTED_SCHEMA_VERSION: u32 = 1;

/// How large a download, and how large the files beside a plugin's code may be
/// together.
pub const MAX_DOWNLOAD_BYTES: u64 = 0x400_0000;

/// How large a plugin's code may be.
pub const MAX_WASM_SIZE: u64 = 0x320_0000;

/// How large a plugin's manifest may be.
pub const MAX_MANIFEST_SIZE: u64 = 0x4_0000;

// The registry.

/// Where the registry is fetched from, the preferred place first.
pub open spec fn registry_urls() -> Seq<Seq<char>> {
    seq![
        "https://waveflow.app/api/plugins/registry"@,
        "https://raw.githubusercontent.com/InstaZDLL/waveflow-plugins/main/registry.json"@,
        "https://cdn.jsdelivr.net/gh/InstaZDLL/waveflow-plugins@main/registry.json"@,
    ]
}

/// What came back from one of the places.
#[derive(PartialEq, Eq, Debug)]
pub enum SourceReply {
    /// A registry of this version.
    Registry(u32),
    /// Nothing usable, for this reason.
    Failed(String),
}

/// A fetch of the registry that is under way.
#[derive(PartialEq, Eq, Debug)]
pub struct RegistryFetch {
    /// The place that is asked now.
    pub source: usize,
    /// Why the last place was of no use.
    pub last_error: String,
}

/// What follows a reply.
#[derive(PartialEq, Eq, Debug)]
pub enum FetchStep {
    /// The registry that came back is used.
    Use,
    /// The next place is asked.
    Next(RegistryFetch),
    /// The fetch has failed.
    Fail(AppError),
}

/// What is said of a registry whose version is not understood.
pub open spec fn schema_complaint(version: u32) -> Seq<char> {
    "unsupported plugin-registry schema_version "@ + decimal::nat_text(version as nat)
        + " (this build supports 1); update WaveFlow"@
}

/// Begin to fetch the registry, unless the network is off.
pub fn fetch_registry(offline: bool) -> (r: Result<RegistryFetch, AppError>)
    ensures
        r is Ok <==> !offline,
        r matches Ok(f) ==> f.source == 0 && f.last_error@
            == "no plugin-registry source reachable"@,
        r matches Err(e) ==> error::says(
            e,
            "offline mode is on; the plugin store is unavailable"@,
        ),
{
    if offline {
        return Err(
            AppError::Other("offline mode is on; the plugin store is unavailable".to_owned()),
        );
    }
    Ok(
        RegistryFetch {
            source: 0,
            last_error: "no plugin-registry source reachable".to_owned(),
        },
    )
}

impl RegistryFetch {
    /// The place that is asked now; none once all have been.
    pub fn url(&self) -> (r: Option<&'static str>)
        ensures
            r is Some <==> self.source < registry_urls().len(),
            r matches Some(u) ==> u@ == registry_urls()[self.source as int],
    {
        if self.source == 0 {
            Some("https://waveflow.app/api/plugins/registry")
        } else if self.source == 1 {
            Some("https://raw.githubusercontent.com/InstaZDLL/waveflow-plugins/main/registry.json")
        } else if self.source == 2 {
            Some("https://cdn.jsdelivr.net/gh/InstaZDLL/waveflow-plugins@main/registry.json")
        } else {
            None
        }
    }

    /// What follows a reply: a registry that is understood is used, one that is
    /// not ends the fetch, and otherwise the next place is asked. The last place's
    /// reason is what is said when there is no next.
    pub fn after(self, reply: SourceReply) -> (r: FetchStep)
        requires
            self.source < registry_urls().len(),
        ensures
            match reply {
                SourceReply::Registry(v) => if v == SUPPORTED_SCHEMA_VERSION {
                    r is Use
                } else {
                    r matches FetchStep::Fail(e) && error::says(e, schema_complaint(v))
                },
                SourceReply::Failed(m) => if self.source + 1 < registry_urls().len() {
                    r matches FetchStep::Next(f) && f.source == self.source + 1 && f.last_error
                        == m
                } else {
                    r matches FetchStep::Fail(e) && error::says(e, m@)
                },
            },
            reply matches SourceReply::Registry(v) ==> (r is Use <==> v == 1),
    {
        match reply {
            SourceReply::Registry(v) => {
                if v == SUPPORTED_SCHEMA_VERSION {
                    FetchStep::Use
                } else {
                    FetchStep::Fail(
                        AppError::Other(
                            around(
                                "unsupported plugin-registry schema_version ",
                                u64_text(v as u64).as_str(),
                                " (this build supports 1); update WaveFlow",
                            ),
                        ),
                    )
                }
            },
            SourceReply::Failed(m) => {
                if self.source + 1 < 3 {
                    FetchStep::Next(RegistryFetch { source: self.source + 1, last_error: m })
                } else {
                    FetchStep::Fail(AppError::Other(m))
                }
            },
        }
    }
}

// Versions.

/// Whether a piece of a version is a number that a version can hold.
pub open spec fn is_version_number(piece: Seq<char>) -> bool {
    decimal::nat_named(piece) matches Some(n) && n <= u32::MAX
}

/// A piece of a version, by its place: zero where there is none.
pub open spec fn version_piece(pieces: Seq<Seq<char>>, i: int) -> nat {
    if i < pieces.len() {
        decimal::nat_named(pieces[i])->0
    } else {
        0
    }
}

/// The pieces of a version: what stands before the first hyphen, at the full stops.
pub open spec fn version_pieces(v: Seq<char>) -> Seq<Seq<char>> {
    text::split_on(text::before_part(v, "-"@), '.')
}

/// Whether every piece of a version is a number.
pub open spec fn is_version(v: Seq<char>) -> bool {
    forall|i: int|
        0 <= i < version_pieces(v).len() ==> is_version_number(#[trigger] version_pieces(v)[i])
}

/// The three numbers of a version, and zeros where one of its pieces is no number.
pub open spec fn semver(v: Seq<char>) -> (nat, nat, nat) {
    let pieces = version_pieces(v);
    if is_version(v) {
        (version_piece(pieces, 0), version_piece(pieces, 1), version_piece(pieces, 2))
    } else {
        (0, 0, 0)
    }
}

/// The three numbers of a version, and zeros where one of its pieces is no number.
pub fn parse_semver(v: &str) -> (r: (u32, u32, u32))
    ensures
        r.0 == semver(v@).0,
        r.1 == semver(v@).1,
        r.2 == semver(v@).2,
{
    let core = before(v, "-");
    let pieces = split(core.as_str(), '.');
    let ghost all = version_pieces(v@);
    assert(text::texts(pieces@) == all);
    let mut a: u32 = 0;
    let mut b: u32 = 0;
    let mut c: u32 = 0;
    let mut i: usize = 0;
    while i < pieces.len()
        invariant
            all == version_pieces(v@),
            text::texts(pieces@) == all,
            i <= pieces@.len(),
            forall|k: int| 0 <= k < i ==> is_version_number(#[trigger] all[k]),
            a == (if i > 0 {
                version_piece(all, 0)
            } else {
                0
            }),
            b == (if i > 1 {
                version_piece(all, 1)
            } else {
                0
            }),
            c == (if i > 2 {
                version_piece(all, 2)
            } else {
                0
            }),
        decreases pieces@.len() - i,
    {
        assert(all[i as int] == pieces@[i as int]@);
        match parse_nat(pieces[i].as_str(), u32::MAX as u64) {
            Some(n) => {
                assert(is_version_number(all[i as int]));
                if i == 0 {
                    a = n as u32;
                } else if i == 1 {
                    b = n as u32;
                } else if i == 2 {
                    c = n as u32;
                }
            },
            None => {
                assert(!is_version_number(all[i as int]));
                return (0, 0, 0);
            },
        }
        i = i + 1;
    }
    (a, b, c)
}

/// Whether a version is another or a later one.
pub open spec fn at_least(a: (nat, nat, nat), b: (nat, nat, nat)) -> bool {
    a.0 > b.0 || (a.0 == b.0 && (a.1 > b.1 || (a.1 == b.1 && a.2 >= b.2)))
}

/// Whether a version of the application will do.
pub open spec fn will_do(app: Seq<char>, min: Option<Seq<char>>) -> bool {
    match min {
        None => true,
        Some(m) => at_least(semver(app), semver(m)),
    }
}

/// Whether a version of the application will do where this one is the least.
pub fn is_compatible(app_version: &str, min_app_version: &Option<String>) -> (r: bool)
    ensures
        r == will_do(app_version@, text::opt_text(*min_app_version)),
{
    match min_app_version {
        None => true,
        Some(min) => {
            let a = parse_semver(app_version);
            let b = parse_semver(min.as_str());
            a.0 > b.0 || (a.0 == b.0 && (a.1 > b.1 || (a.1 == b.1 && a.2 >= b.2)))
        },
    }
}

/// A version will do for itself, and a later one for all that an earlier one
/// does for.
pub proof fn a_later_version_will_do(a: Seq<char>, b: Seq<char>, c: Seq<char>)
    ensures
        will_do(a, Some(a)),
        will_do(a, Some(b)) && will_do(b, Some(c)) ==> will_do(a, Some(c)),
        will_do(a, Some(b)) || will_do(b, Some(a)),
{
}

/// A least version that is none never keeps a plugin from being installed.
pub proof fn a_malformed_version_blocks_nothing(app: Seq<char>, min: Seq<char>)
    requires
        !is_version(min),
    ensures
        will_do(app, Some(min)),
{
}

// The catalogue.

/// A plugin of the registry.
#[derive(PartialEq, Eq, Debug)]
pub struct RegistryEntry {
    pub id: String,
    pub name: String,
    pub description: String,
    pub author: String,
    pub repo: String,
    pub homepage: Option<String>,
    pub world: String,
    pub version: String,
    pub blake3: String,
    pub asset: Option<String>,
    pub http: Vec<String>,
    pub storage_read: bool,
    pub storage_state: bool,
    pub tags: Vec<String>,
    pub official: bool,
    pub min_app_version: Option<String>,
}

/// A plugin of the registry, as the interface is told it.
#[derive(PartialEq, Eq, Debug)]
pub struct MarketplaceEntry {
    pub id: String,
    pub name: String,
    pub description: String,
    pub author: String,
    pub repo: String,
    pub homepage: Option<String>,
    pub world: String,
    pub version: String,
    pub http: Vec<String>,
    pub storage_read: bool,
    pub storage_state: bool,
    pub tags: Vec<String>,
    pub official: bool,
    pub installed: bool,
    pub installed_version: Option<String>,
    pub update_available: bool,
    pub compatible: bool,
}

/// The installed version of a plugin: that of its manifest, where the manifest
/// names it.
pub fn installed_version(id: &str, manifest: Option<(String, String)>) -> (r: Option<String>)
    ensures
        r == (match manifest {
            Some((named, version)) if named@ == id@ => Some(version),
            _ => None,
        }),
{
    match manifest {
        Some((named, version)) => {
            if same_text(named.as_str(), id) {
                Some(version)
            } else {
                None
            }
        },
        None => None,
    }
}

/// A plugin of the registry, as the interface is told it: there is an update
/// where another version is installed.
pub fn list_plugin_marketplace(
    entry: RegistryEntry,
    installed_version: Option<String>,
    app_version: &str,
) -> (r: MarketplaceEntry)
    ensures
        r == (MarketplaceEntry {
            id: entry.id,
            name: entry.name,
            description: entry.description,
            author: entry.author,
            repo: entry.repo,
            homepage: entry.homepage,
            world: entry.world,
            version: entry.version,
            http: entry.http,
            storage_read: entry.storage_read,
            storage_state: entry.storage_state,
            tags: entry.tags,
            official: entry.official,
            installed: installed_version is Some,
            installed_version,
            update_available: installed_version matches Some(v) && v@ != entry.version@,
            compatible: will_do(app_version@, text::opt_text(entry.min_app_version)),
        }),
{
    let compatible = is_compatible(app_version, &entry.min_app_version);
    let (installed, update_available) = match &installed_version {
        Some(v) => (true, !same_text(v.as_str(), entry.version.as_str())),
        None => (false, false),
    };
    MarketplaceEntry {
        id: entry.id,
        name: entry.name,
        description: entry.description,
        author: entry.author,
        repo: entry.repo,
        homepage: entry.homepage,
        world: entry.world,
        version: entry.version,
        http: entry.http,
        storage_read: entry.storage_read,
        storage_state: entry.storage_state,
        tags: entry.tags,
        official: entry.official,
        installed,
        installed_version,
        update_available,
        compatible,
    }
}

// What is downloaded.

/// Whether a plugin may be installed at all: its id must be one, the network on,
/// and it must not come with the application.
pub fn may_install(plugin_id: &str, offline: bool, bundled: bool) -> (r: Result<(), AppError>)
    ensures
        r is Ok <==> plugins::is_plugin_id(plugin_id@) && !offline && !bundled,
        r matches Err(e) ==> error::says(
            e,
            if !plugins::is_plugin_id(plugin_id@) {
                plugins::id_complaint(plugin_id@)
            } else if offline {
                "offline mode is on; can't install plugins"@
            } else {
                plugin_id@ + " ships with WaveFlow and can't be installed from the store"@
            },
        ),
{
    match validate_plugin_id_chars(plugin_id) {
        Err(e) => return Err(e),
        Ok(_) => {},
    }
    if offline {
        return Err(AppError::Other("offline mode is on; can't install plugins".to_owned()));
    }
    if bundled {
        let m = around(
            plugin_id,
            " ships with WaveFlow and can't be installed from the store",
            "",
        );
        proof {
            reveal_strlit("");
            assert(m@ =~= plugin_id@
                + " ships with WaveFlow and can't be installed from the store"@);
        }
        return Err(AppError::Other(m));
    }
    Ok(())
}

/// A release to be downloaded, with what it must turn out to be.
#[derive(PartialEq, Eq, Debug)]
pub struct Release {
    pub url: String,
    pub blake3: String,
    pub version: String,
    pub world: String,
}

/// The first plugin of the registry with an id.
pub open spec fn entry_index(entries: Seq<RegistryEntry>, id: Seq<char>) -> int
    decreases entries.len(),
{
    if entries.len() == 0 || entries[0].id@ == id {
        0
    } else {
        1 + entry_index(entries.drop_first(), id)
    }
}

/// What a plugin's release is called.
pub open spec fn asset_name(entry: RegistryEntry) -> Seq<char> {
    match entry.asset {
        Some(a) => a@,
        None => entry.id@ + "-v"@ + entry.version@ + ".zip"@,
    }
}

/// Where a plugin's release is.
pub open spec fn release_url(entry: RegistryEntry) -> Seq<char> {
    "https://github.com/"@ + entry.repo@ + "/releases/download/v"@ + entry.version@ + "/"@
        + asset_name(entry)
}

/// What is said of a plugin that asks for a later version.
pub open spec fn version_complaint(entry: RegistryEntry, app_version: Seq<char>) -> Seq<char> {
    entry.name@ + " requires WaveFlow "@ + (match entry.min_app_version {
        Some(m) => m@,
        None => "?"@,
    }) + " or newer (you have "@ + app_version + ")"@
}

proof fn lemma_entry_index(entries: Seq<RegistryEntry>, id: Seq<char>, k: int)
    requires
        0 <= k <= entries.len(),
        forall|j: int| 0 <= j < k ==> (#[trigger] entries[j]).id@ != id,
        k < entries.len() ==> entries[k].id@ == id,
    ensures
        entry_index(entries, id) == k,
    decreases entries.len(),
{
    if entries.len() > 0 && entries[0].id@ != id {
        let rest = entries.drop_first();
        assert forall|j: int| 0 <= j < k - 1 implies (#[trigger] rest[j]).id@ != id by {
            assert(rest[j] == entries[j + 1]);
        }
        lemma_entry_index(rest, id, k - 1);
    }
}

/// The release of a plugin of the registry.
pub fn install_plugin_from_registry(
    entries: &Vec<RegistryEntry>,
    plugin_id: &str,
    app_version: &str,
) -> (r: Result<Release, AppError>)
    ensures
        ({
            let k = entry_index(entries@, plugin_id@);
            if k >= entries@.len() {
                r matches Err(e) && error::says(e, "plugin not in registry: "@ + plugin_id@)
            } else if !will_do(app_version@, text::opt_text(entries@[k].min_app_version)) {
                r matches Err(e) && error::says(e, version_complaint(entries@[k], app_version@))
            } else {
                r matches Ok(release) && {
                    &&& release.url@ == release_url(entries@[k])
                    &&& release.blake3@ == text::unicode_lowercase(entries@[k].blake3@)
                    &&& release.version == entries@[k].version
                    &&& release.world == entries@[k].world
                }
            }
        }),
{
    let total: usize = entries.len();
    let mut k: usize = 0;
    while k < total && !same_text(entries[k].id.as_str(), plugin_id)
        invariant
            total == entries@.len(),
            k <= total,
            forall|j: int| 0 <= j < k ==> (#[trigger] entries@[j]).id@ != plugin_id@,
        decreases total - k,
    {
        k = k + 1;
    }
    proof {
        lemma_entry_index(entries@, plugin_id@, k as int);
        reveal_strlit("");
    }
    if k >= total {
        let m = around("plugin not in registry: ", plugin_id, "");
        assert(m@ =~= "plugin not in registry: "@ + plugin_id@);
        return Err(AppError::Other(m));
    }
    let entry = &entries[k];
    if !is_compatible(app_version, &entry.min_app_version) {
        let mut m = entry.name.clone();
        m.append(" requires WaveFlow ");
        match &entry.min_app_version {
            Some(v) => {
                m.append(v.as_str());
            },
            None => {
                m.append("?");
            },
        }
        m.append(" or newer (you have ");
        m.append(app_version);
        m.append(")");
        return Err(AppError::Other(m));
    }
    let asset = match &entry.asset {
        Some(a) => a.clone(),
        None => {
            let mut a = entry.id.clone();
            a.append("-v");
            a.append(entry.version.as_str());
            a.append(".zip");
            a
        },
    };
    let mut url = "https://github.com/".to_owned();
    url.append(entry.repo.as_str());
    url.append("/releases/download/v");
    url.append(entry.version.as_str());
    url.append("/");
    url.append(asset.as_str());
    Ok(
        Release {
            url,
            blake3: entry.blake3.as_str().to_lowercase(),
            version: entry.version.clone(),
            world: entry.world.clone(),
        },
    )
}

/// Whether a download of a declared length may begin.
pub fn check_declared_length(length: Option<u64>) -> (r: Result<(), AppError>)
    ensures
        r is Err <==> (length matches Some(n) && n > MAX_DOWNLOAD_BYTES),
        length matches Some(n) ==> (r is Ok <==> n <= 67_108_864),
        r matches Err(e) ==> error::says(
            e,
            "release asset too large: "@ + decimal::nat_text((length->0) as nat)
                + " bytes (max 67108864)"@,
        ),
{
    if let Some(n) = length {
        if n > MAX_DOWNLOAD_BYTES {
            return Err(
                AppError::Other(
                    around(
                        "release asset too large: ",
                        u64_text(n).as_str(),
                        " bytes (max 67108864)",
                    ),
                ),
            );
        }
    }
    Ok(())
}

/// Whether a piece of a download may be taken, and how long it then is.
pub fn take_chunk(taken: u64, chunk: u64) -> (r: Result<u64, AppError>)
    requires
        taken <= MAX_DOWNLOAD_BYTES,
    ensures
        r is Ok <==> taken + chunk <= MAX_DOWNLOAD_BYTES,
        r is Err <==> taken + chunk > 67_108_864,
        r matches Ok(n) ==> n == taken + chunk,
        r matches Err(e) ==> error::says(e, "release asset exceeds 67108864 bytes — refusing"@),
{
    if chunk > MAX_DOWNLOAD_BYTES || taken + chunk > MAX_DOWNLOAD_BYTES {
        return Err(
            AppError::Other("release asset exceeds 67108864 bytes — refusing".to_owned()),
        );
    }
    Ok(taken + chunk)
}

// What is unpacked.

/// What reading a file of an archive by its name comes to.
#[derive(PartialEq, Eq, Debug)]
pub enum ZipMember {
    /// The bytes are no archive, for this reason.
    NotAZip(String),
    /// The archive has no such file.
    Missing,
    /// The file cannot be opened, for this reason.
    Unreadable(String),
    /// The file cannot be read to the end, for this reason.
    Broken(String),
    /// The file's content, up to a limit.
    Content(Vec<u8>),
}

/// What reading a file of an archive by its name comes to.
pub enum MemberNote {
    NotAZip(Seq<char>),
    Missing,
    Unreadable(Seq<char>),
    Broken(Seq<char>),
    Content(Seq<u8>),
}

impl ZipMember {
    pub open spec fn view(&self) -> MemberNote {
        match self {
            ZipMember::NotAZip(m) => MemberNote::NotAZip(m@),
            ZipMember::Missing => MemberNote::Missing,
            ZipMember::Unreadable(m) => MemberNote::Unreadable(m@),
            ZipMember::Broken(m) => MemberNote::Broken(m@),
            ZipMember::Content(c) => MemberNote::Content(c@),
        }
    }
}

/// What `zip` reads under a name in an archive, up to so many bytes.
pub uninterp spec fn zip_member(zip: Seq<u8>, name: Seq<char>, limit: u64) -> MemberNote;

/// `zip::ZipArchive::new` and `by_name`, read up to `limit` bytes: what comes
/// back depends on the archive's bytes, the name and the limit alone, and is
/// never longer than the limit.
#[verifier::external_body]
fn read_zip_member(bytes: &Vec<u8>, name: &str, limit: u64) -> (r: ZipMember)
    ensures
        r@ == zip_member(bytes@, name@, limit),
        r matches ZipMember::Content(c) ==> c@.len() <= limit,
{
    let mut archive = match zip::ZipArchive::new(std::io::Cursor::new(bytes.as_slice())) {
        Ok(archive) => archive,
        Err(e) => return ZipMember::NotAZip(e.to_string()),
    };
    let file = match archive.by_name(name) {
        Ok(file) => file,
        Err(zip::result::ZipError::FileNotFound) => return ZipMember::Missing,
        Err(e) => return ZipMember::Unreadable(e.to_string()),
    };
    let mut content = Vec::new();
    let read = std::io::Read::read_to_end(&mut std::io::Read::take(file, limit), &mut content);
    match read {
        Ok(_) => ZipMember::Content(content),
        Err(e) => ZipMember::Broken(e.to_string()),
    }
}

/// What a file of a plugin's archive comes to: its content where it is there and
/// not too large.
pub fn read_zip_file(member: ZipMember, name: &str, max_bytes: u64) -> (r: Result<
    Option<Vec<u8>>,
    AppError,
>)
    ensures
        match member {
            ZipMember::NotAZip(m) => r matches Err(e) && error::says(e, "open plugin zip: "@ + m@),
            ZipMember::Missing => r matches Ok(None),
            ZipMember::Unreadable(m) => r matches Err(e) && error::says(
                e,
                "read "@ + name@ + " from plugin zip: "@ + m@,
            ),
            ZipMember::Broken(m) => r == Err::<Option<Vec<u8>>, AppError>(AppError::Io(m)),
            ZipMember::Content(c) => if c@.len() > max_bytes {
                r matches Err(e) && error::says(
                    e,
                    name@ + " exceeds "@ + decimal::nat_text(max_bytes as nat)
                        + " bytes — refusing"@,
                )
            } else {
                r == Ok::<Option<Vec<u8>>, AppError>(Some(c))
            },
        },
{
    proof {
        reveal_strlit("");
    }
    match member {
        ZipMember::NotAZip(m) => {
            let said = around("open plugin zip: ", m.as_str(), "");
            assert(said@ =~= "open plugin zip: "@ + m@);
            Err(AppError::Other(said))
        },
        ZipMember::Missing => Ok(None),
        ZipMember::Unreadable(m) => {
            let mut said = around("read ", name, " from plugin zip: ");
            said.append(m.as_str());
            Err(AppError::Other(said))
        },
        ZipMember::Broken(m) => Err(AppError::Io(m)),
        ZipMember::Content(c) => {
            if c.len() as u64 > max_bytes {
                let mut said = around(name, " exceeds ", "");
                assert(said@ =~= name@ + " exceeds "@);
                said.append(u64_text(max_bytes).as_str());
                said.append(" bytes — refusing");
                Err(AppError::Other(said))
            } else {
                Ok(Some(c))
            }
        },
    }
}

/// What a plugin's archive holds.
#[derive(PartialEq, Eq, Debug)]
pub struct PluginFiles {
    pub wasm: Vec<u8>,
    pub manifest: Vec<u8>,
    /// The manifest as text.
    pub manifest_text: String,
}

/// The content of a file of an archive, where it is there and not too large.
pub open spec fn member_content(member: MemberNote, max_bytes: u64) -> Option<Seq<u8>> {
    match member {
        MemberNote::Content(c) if c.len() <= max_bytes => Some(c),
        _ => None,
    }
}

/// What is said of code that is not what the registry names.
pub open spec fn hash_complaint(id: Seq<char>, expected: Seq<char>, actual: Seq<char>) -> Seq<char> {
    "blake3 mismatch for "@ + id + ": registry pins "@ + expected + ", download is "@ + actual
        + " — refusing"@
}

/// What the two files of a plugin's archive come to: they must be there, the
/// code must be what the registry names, and the manifest text.
pub fn check_plugin_files(
    wasm: Option<Vec<u8>>,
    manifest: Option<Vec<u8>>,
    plugin_id: &str,
    expected_blake3: &str,
) -> (r: Result<PluginFiles, AppError>)
    ensures
        match (wasm, manifest) {
            (None, _) => r matches Err(e) && error::says(e, "plugin zip missing plugin.wasm"@),
            (_, None) => r matches Err(e) && error::says(e, "plugin zip missing manifest.toml"@),
            (Some(w), Some(m)) => if digest::blake3_hex(w@) != expected_blake3@ {
                r matches Err(e) && error::says(
                    e,
                    hash_complaint(plugin_id@, expected_blake3@, digest::blake3_hex(w@)),
                )
            } else if !vstd::utf8::valid_utf8(m@) {
                r matches Err(e) && error::says(
                    e,
                    "manifest.toml is not utf-8: "@ + text::utf8_complaint(m@),
                )
            } else {
                &&& r matches Ok(files)
                &&& files.wasm == w
                &&& files.manifest == m
                &&& files.manifest_text@ == vstd::utf8::decode_utf8(m@)
            },
        },
{
    let wasm = match wasm {
        Some(w) => w,
        None => return Err(AppError::Other("plugin zip missing plugin.wasm".to_owned())),
    };
    let manifest = match manifest {
        Some(m) => m,
        None => return Err(AppError::Other("plugin zip missing manifest.toml".to_owned())),
    };
    let actual = hash_file_blake3(&wasm);
    if !same_text(actual.as_str(), expected_blake3) {
        let mut m = around("blake3 mismatch for ", plugin_id, ": registry pins ");
        m.append(expected_blake3);
        m.append(", download is ");
        m.append(actual.as_str());
        m.append(" — refusing");
        return Err(AppError::Other(m));
    }
    match utf8_text(&manifest) {
        Ok(manifest_text) => Ok(PluginFiles { wasm, manifest, manifest_text }),
        Err(why) => {
            let m = around("manifest.toml is not utf-8: ", why.as_str(), "");
            proof {
                reveal_strlit("");
                assert(m@ =~= "manifest.toml is not utf-8: "@ + why@);
            }
            Err(AppError::Other(m))
        },
    }
}

/// What reading the code of a plugin's archive comes to.
pub open spec fn wasm_member(zip: Seq<u8>) -> MemberNote {
    zip_member(zip, "plugin.wasm"@, (MAX_WASM_SIZE + 1) as u64)
}

/// What reading the manifest of a plugin's archive comes to.
pub open spec fn manifest_member(zip: Seq<u8>) -> MemberNote {
    zip_member(zip, "manifest.toml"@, (MAX_MANIFEST_SIZE + 1) as u64)
}

/// Whether an error is the one for a file of an archive that cannot be had.
pub open spec fn is_member_error(
    e: AppError,
    member: MemberNote,
    name: Seq<char>,
    max_bytes: u64,
) -> bool {
    match member {
        MemberNote::NotAZip(m) => error::says(e, "open plugin zip: "@ + m),
        MemberNote::Missing => error::says(e, "plugin zip missing "@ + name),
        MemberNote::Unreadable(m) => error::says(e, "read "@ + name + " from plugin zip: "@ + m),
        MemberNote::Broken(m) => e matches AppError::Io(why) && why@ == m,
        MemberNote::Content(c) => error::says(
            e,
            name + " exceeds "@ + decimal::nat_text(max_bytes as nat) + " bytes — refusing"@,
        ),
    }
}

/// The files of a plugin's archive, where the code is what the registry names.
pub fn open_plugin_zip(bytes: &Vec<u8>, plugin_id: &str, expected_blake3: &str) -> (r: Result<
    PluginFiles,
    AppError,
>)
    ensures
        match (
            member_content(wasm_member(bytes@), MAX_WASM_SIZE),
            member_content(manifest_member(bytes@), MAX_MANIFEST_SIZE),
        ) {
            (None, _) => r matches Err(e) && is_member_error(
                e,
                wasm_member(bytes@),
                "plugin.wasm"@,
                MAX_WASM_SIZE,
            ),
            (_, None) => r matches Err(e) && is_member_error(
                e,
                manifest_member(bytes@),
                "manifest.toml"@,
                MAX_MANIFEST_SIZE,
            ),
            (Some(w), Some(m)) => if digest::blake3_hex(w) != expected_blake3@ {
                r matches Err(e) && error::says(
                    e,
                    hash_complaint(plugin_id@, expected_blake3@, digest::blake3_hex(w)),
                )
            } else if !vstd::utf8::valid_utf8(m) {
                r matches Err(e) && error::says(
                    e,
                    "manifest.toml is not utf-8: "@ + text::utf8_complaint(m),
                )
            } else {
                &&& r matches Ok(files)
                &&& files.wasm@ == w
                &&& files.manifest@ == m
                &&& files.manifest_text@ == vstd::utf8::decode_utf8(m)
            },
        },
{
    proof {
        reveal_strlit("plugin zip missing ");
        reveal_strlit("plugin.wasm");
        reveal_strlit("manifest.toml");
        reveal_strlit("plugin zip missing plugin.wasm");
        reveal_strlit("plugin zip missing manifest.toml");
        assert("plugin zip missing plugin.wasm"@ =~= "plugin zip missing "@ + "plugin.wasm"@);
        assert("plugin zip missing manifest.toml"@ =~= "plugin zip missing "@ + "manifest.toml"@);
    }
    let wasm = match read_zip_file(
        read_zip_member(bytes, "plugin.wasm", MAX_WASM_SIZE + 1),
        "plugin.wasm",
        MAX_WASM_SIZE,
    ) {
        Ok(w) => w,
        Err(e) => return Err(e),
    };
    let wasm = match wasm {
        Some(w) => w,
        None => return Err(AppError::Other("plugin zip missing plugin.wasm".to_owned())),
    };
    let manifest = match read_zip_file(
        read_zip_member(bytes, "manifest.toml", MAX_MANIFEST_SIZE + 1),
        "manifest.toml",
        MAX_MANIFEST_SIZE,
    ) {
        Ok(m) => m,
        Err(e) => return Err(e),
    };
    check_plugin_files(Some(wasm), manifest, plugin_id, expected_blake3)
}

/// Whether a manifest is that of the plugin that was asked for: its id, its
/// version and its world.
pub fn check_manifest(
    id: &str,
    version: &str,
    world: &str,
    plugin_id: &str,
    expected_version: &str,
    expected_world: &str,
) -> (r: Result<(), AppError>)
    ensures
        r is Ok <==> id@ == plugin_id@ && version@ == expected_version@ && world@
            == expected_world@,
        r matches Err(e) ==> error::says(
            e,
            if id@ != plugin_id@ {
                "manifest id "@ + text::quoted_text(id@) + " does not match requested "@
                    + plugin_id@
            } else if version@ != expected_version@ {
                "manifest version "@ + text::quoted_text(version@) + " does not match registry "@
                    + expected_version@
            } else {
                "manifest world "@ + text::quoted_text(world@) + " does not match registry "@
                    + expected_world@
            },
        ),
{
    if !same_text(id, plugin_id) {
        let mut m = around("manifest id ", quote_text(id).as_str(), " does not match requested ");
        m.append(plugin_id);
        return Err(AppError::Other(m));
    }
    if !same_text(version, expected_version) {
        let mut m = around(
            "manifest version ",
            quote_text(version).as_str(),
            " does not match registry ",
        );
        m.append(expected_version);
        return Err(AppError::Other(m));
    }
    if !same_text(world, expected_world) {
        let mut m = around(
            "manifest world ",
            quote_text(world).as_str(),
            " does not match registry ",
        );
        m.append(expected_world);
        return Err(AppError::Other(m));
    }
    Ok(())
}

// The files beside the code.

/// An entry of an archive.
#[derive(PartialEq, Eq, Debug)]
pub enum ZipEntry {
    /// It cannot be read, for this reason.
    Unreadable(String),
    Directory,
    /// Its name leads out of the archive.
    Outside,
    /// A file under this name, whose parts are joined as the machine joins them.
    File(String),
}

/// What an archive's entry is, whatever the machine.
pub enum EntryFound {
    /// It cannot be read, for this reason.
    Unreadable(Seq<char>),
    Directory,
    /// A file under this name, whose parts are joined by slashes; none where the name
    /// leads out of the archive.
    Named(Option<Seq<char>>),
    /// A file under this name, but for Windows: a part of what the entry calls itself
    /// begins as a drive does, and takes the place of all before it there.
    Drive(Seq<char>),
}

/// What `zip` finds an archive's entry to be, by `by_index`, `is_dir` and `enclosed_name`.
pub uninterp spec fn zip_entry_found(zip: Seq<u8>, index: usize) -> EntryFound;

/// A part of a name that stays in its directory: not empty, and neither the directory
/// itself nor the one above it.
pub open spec fn is_inner(part: Seq<char>) -> bool {
    &&& part.len() > 0
    &&& part != "."@
    &&& part != ".."@
}

/// A path whose parts all stay in their directories, so that it leads nowhere but below
/// the directory that it begins in.
pub open spec fn stays_inside(path: Seq<char>) -> bool {
    forall|k: int|
        0 <= k < text::split_on(path, '/').len() ==> is_inner(
            #[trigger] text::split_on(path, '/')[k],
        )
}

/// A letter of ASCII and a colon in front.
pub open spec fn begins_with_drive(name: Seq<char>) -> bool {
    &&& name.len() >= 2
    &&& ('a' <= name[0] && name[0] <= 'z') || ('A' <= name[0] && name[0] <= 'Z')
    &&& name[1] == ':'
}

/// Whether an entry is what was found of it. The name of a file is empty, or its parts
/// all stay in their directories.
pub open spec fn is_entry(entry: ZipEntry, found: EntryFound) -> bool {
    &&& match found {
        EntryFound::Unreadable(m) => entry matches ZipEntry::Unreadable(why) && why@ == m,
        EntryFound::Directory => entry is Directory,
        EntryFound::Named(None) => entry is Outside,
        EntryFound::Named(Some(name)) => entry matches ZipEntry::File(f) && slashed(f@) == name,
        EntryFound::Drive(name) => entry matches ZipEntry::File(f) && (slashed(f@) == name
            || begins_with_drive(f@)),
    }
    &&& entry matches ZipEntry::File(f) ==> f@.len() == 0 || stays_inside(slashed(f@))
}

/// `zip::ZipArchive::by_index`, `is_dir` and `enclosed_name`: what an entry is. The
/// archive's bytes and the index decide it, but for a file with a part that begins as a
/// drive does: `enclosed_name` puts the parts together with `PathBuf::push`, and on
/// Windows such a part replaces what stands before it. No part of a file's name is empty
/// or leads up: `enclosed_name` resolves those, or hands out no name.
#[verifier::external_body]
fn zip_entry(bytes: &Vec<u8>, index: usize) -> (r: ZipEntry)
    ensures
        is_entry(r, zip_entry_found(bytes@, index)),
{
    let opened = zip::ZipArchive::new(std::io::Cursor::new(bytes.as_slice()));
    let mut archive = match opened {
        Ok(archive) => archive,
        Err(e) => return ZipEntry::Unreadable(e.to_string()),
    };
    let entry = match archive.by_index(index) {
        Ok(entry) => entry,
        Err(e) => return ZipEntry::Unreadable(e.to_string()),
    };
    match (entry.is_dir(), entry.enclosed_name()) {
        (true, _) => ZipEntry::Directory,
        (false, None) => ZipEntry::Outside,
        (false, Some(name)) => ZipEntry::File(name.to_string_lossy().into_owned()),
    }
}

/// How many entries `zip` counts in an archive, or why the bytes are none.
pub uninterp spec fn zip_entry_count(zip: Seq<u8>) -> Result<usize, Seq<char>>;

/// `zip::ZipArchive::new` and `len`: how many entries an archive has.
#[verifier::external_body]
fn count_zip_entries(bytes: &Vec<u8>) -> (r: Result<usize, String>)
    ensures
        match r {
            Ok(n) => zip_entry_count(bytes@) == Ok::<usize, Seq<char>>(n),
            Err(m) => zip_entry_count(bytes@) == Err::<usize, Seq<char>>(m@),
        },
{
    let opened = zip::ZipArchive::new(std::io::Cursor::new(bytes.as_slice()));
    opened.map(|archive| archive.len()).map_err(|e| e.to_string())
}

/// What `zip` reads of an archive's entry, up to so many bytes, or why it cannot
/// be read to the end.
pub uninterp spec fn zip_content(zip: Seq<u8>, index: usize, limit: u64) -> Result<Seq<u8>, Seq<char>>;

/// `zip::ZipArchive::by_index`, read up to `limit` bytes: what comes back depends
/// on the archive's bytes, the index and the limit alone, and is never longer
/// than the limit.
#[verifier::external_body]
fn read_zip_entry(bytes: &Vec<u8>, index: usize, limit: u64) -> (r: Result<Vec<u8>, String>)
    ensures
        match r {
            Ok(c) => c@.len() <= limit && zip_content(bytes@, index, limit) == Ok::<
                Seq<u8>,
                Seq<char>,
            >(c@),
            Err(m) => zip_content(bytes@, index, limit) == Err::<Seq<u8>, Seq<char>>(m@),
        },
{
    let opened = zip::ZipArchive::new(std::io::Cursor::new(bytes.as_slice()));
    let mut archive = opened.map_err(|e| e.to_string())?;
    let entry = archive.by_index(index).map_err(|e| e.to_string())?;
    let mut content = Vec::new();
    let read = std::io::Read::read_to_end(&mut std::io::Read::take(entry, limit), &mut content);
    read.map(|_| content).map_err(|e| e.to_string())
}

/// A name with the parts joined by slashes.
pub open spec fn slashed(name: Seq<char>) -> Seq<char> {
    name.map_values(
        |c: char|
            if c == '\\' {
                '/'
            } else {
                c
            },
    )
}

/// Where a file of an archive goes below the directory of a plugin's files; none
/// for a file that is not below `assets`.
pub open spec fn asset_path_of(name: Seq<char>) -> Option<Seq<char>> {
    let s = slashed(name);
    if "assets/"@.is_prefix_of(s) && s.len() > 7 {
        Some(s.skip(7))
    } else {
        None
    }
}

/// Where a file of an archive goes below the directory of a plugin's files.
pub fn asset_path(name: &str) -> (r: Option<String>)
    ensures
        text::opt_text(r) == asset_path_of(name@),
{
    let c = chars_of(name);
    let mut s: Vec<char> = Vec::new();
    let total: usize = c.len();
    let mut i: usize = 0;
    while i < total
        invariant
            total == c@.len(),
            c@ == name@,
            i <= total,
            s@ == slashed(name@.take(i as int)),
        decreases total - i,
    {
        if c[i] == '\\' {
            s.push('/');
        } else {
            s.push(c[i]);
        }
        assert(s@ =~= slashed(name@.take(i + 1)));
        i = i + 1;
    }
    assert(name@.take(total as int) =~= name@);
    if begins_with(&s, "assets/") && s.len() > 7 {
        let r = string_of(&s, 7, s.len());
        assert(r@ =~= slashed(name@).skip(7));
        Some(r)
    } else {
        None
    }
}

/// How much of a file beside the code is read, where so much has been taken:
/// what is left, and one byte more that would be too many.
pub fn asset_limit(taken: u64) -> (r: u64)
    requires
        taken <= MAX_DOWNLOAD_BYTES,
    ensures
        r == MAX_DOWNLOAD_BYTES - taken + 1,
        taken + r == 67_108_865,
{
    MAX_DOWNLOAD_BYTES - taken + 1
}

/// A file beside a plugin's code.
#[derive(PartialEq, Eq, Debug)]
pub struct AssetFile {
    pub path: String,
    pub content: Vec<u8>,
}

/// What becomes of one entry of a plugin's archive.
#[verifier::ext_equal]
pub enum EntryNote {
    /// It is no file beside the code.
    Skipped,
    /// A file beside the code, under this path and with this content.
    Taken(Seq<char>, Seq<u8>),
    /// The archive is refused, in these words.
    Refused(Seq<char>),
    /// The entry cannot be read to its end, for this reason.
    Broken(Seq<char>),
}

/// What becomes of an entry, by what it is, what it holds and how much was taken
/// before it.
pub open spec fn entry_note(
    entry: ZipEntry,
    index: nat,
    content: Result<Seq<u8>, Seq<char>>,
    taken: nat,
) -> EntryNote {
    match entry {
        ZipEntry::Unreadable(m) => EntryNote::Refused(
            "read plugin zip entry "@ + decimal::nat_text(index) + ": "@ + m@,
        ),
        ZipEntry::Directory => EntryNote::Skipped,
        ZipEntry::Outside => EntryNote::Skipped,
        ZipEntry::File(name) => match asset_path_of(name@) {
            None => EntryNote::Skipped,
            Some(path) => match content {
                Err(m) => EntryNote::Broken(m),
                Ok(c) => if taken + c.len() > MAX_DOWNLOAD_BYTES {
                    EntryNote::Refused("plugin assets exceed 67108864 bytes — refusing"@)
                } else {
                    EntryNote::Taken(path, c)
                },
            },
        },
    }
}

/// Whether an error is the one that an entry gives.
pub open spec fn is_entry_error(e: AppError, note: EntryNote) -> bool {
    match note {
        EntryNote::Refused(m) => error::says(e, m),
        EntryNote::Broken(m) => e matches AppError::Io(why) && why@ == m,
        _ => false,
    }
}

/// Bytes that were read, or why they were not.
pub open spec fn read_note(content: Result<Vec<u8>, String>) -> Result<Seq<u8>, Seq<char>> {
    match content {
        Ok(c) => Ok(c@),
        Err(m) => Err(m@),
    }
}

/// What becomes of one entry of a plugin's archive: another file, none, or a
/// refusal. `content` is what the entry holds, up to what is left and one byte.
pub fn take_asset(
    entry: &ZipEntry,
    index: usize,
    content: Result<Vec<u8>, String>,
    taken: u64,
) -> (r: Result<Option<AssetFile>, AppError>)
    requires
        taken <= MAX_DOWNLOAD_BYTES,
    ensures
        match entry_note(*entry, index as nat, read_note(content), taken as nat) {
            EntryNote::Skipped => r matches Ok(None),
            EntryNote::Taken(path, c) => {
                &&& r matches Ok(Some(file))
                &&& file.path@ == path
                &&& file.content@ == c
            },
            note => r matches Err(e) && is_entry_error(e, note),
        },
{
    match entry {
        ZipEntry::Unreadable(m) => {
            let mut said = around("read plugin zip entry ", u64_text(index as u64).as_str(), ": ");
            said.append(m.as_str());
            Err(AppError::Other(said))
        },
        ZipEntry::Directory => Ok(None),
        ZipEntry::Outside => Ok(None),
        ZipEntry::File(name) => match asset_path(name.as_str()) {
            None => Ok(None),
            Some(path) => match content {
                Err(m) => Err(AppError::Io(m)),
                Ok(content) => {
                    let size: u64 = content.len() as u64;
                    if size > MAX_DOWNLOAD_BYTES || taken + size > MAX_DOWNLOAD_BYTES {
                        Err(
                            AppError::Other(
                                "plugin assets exceed 67108864 bytes — refusing".to_owned(),
                            ),
                        )
                    } else {
                        Ok(Some(AssetFile { path, content }))
                    }
                },
            },
        },
    }
}

/// How large some files are together.
pub open spec fn total_size(files: Seq<(Seq<char>, Seq<u8>)>) -> nat
    decreases files.len(),
{
    if files.len() == 0 {
        0
    } else {
        total_size(files.drop_last()) + files.last().1.len()
    }
}

/// The paths and contents of files, in order.
pub open spec fn asset_notes(files: Seq<AssetFile>) -> Seq<(Seq<char>, Seq<u8>)> {
    files.map_values(|f: AssetFile| (f.path@, f.content@))
}

/// The files beside a plugin's code that an archive with these entries holds: the
/// path and the content of each, in the archive's order, or what became of the
/// first entry that gave an error. An entry is read up to what is left of a
/// download's size, and one byte more.
pub open spec fn gathered(zip: Seq<u8>, entries: Seq<ZipEntry>) -> Result<
    Seq<(Seq<char>, Seq<u8>)>,
    EntryNote,
>
    decreases entries.len(),
{
    if entries.len() == 0 {
        Ok(Seq::empty())
    } else {
        match gathered(zip, entries.drop_last()) {
            Err(note) => Err(note),
            Ok(files) => {
                let i = (entries.len() - 1) as nat;
                let taken = total_size(files);
                let limit = (MAX_DOWNLOAD_BYTES - taken + 1) as u64;
                match entry_note(
                    entries.last(),
                    i,
                    zip_content(zip, i as usize, limit),
                    taken,
                ) {
                    EntryNote::Skipped => Ok(files),
                    EntryNote::Taken(path, content) => Ok(files.push((path, content))),
                    note => Err(note),
                }
            },
        }
    }
}

/// Whether files, or an error, are those of an archive with these entries.
pub open spec fn is_gathered(
    r: Result<Vec<AssetFile>, AppError>,
    zip: Seq<u8>,
    entries: Seq<ZipEntry>,
) -> bool {
    match (r, gathered(zip, entries)) {
        (Ok(files), Ok(notes)) => asset_notes(files@) == notes,
        (Err(e), Err(note)) => is_entry_error(e, note),
        _ => false,
    }
}

/// The files beside a plugin's code are never larger together than a download may
/// be, and each has a path.
pub proof fn assets_fit_a_download(zip: Seq<u8>, entries: Seq<ZipEntry>)
    ensures
        gathered(zip, entries) matches Ok(files) ==> {
            &&& total_size(files) <= MAX_DOWNLOAD_BYTES
            &&& files.len() <= entries.len()
            &&& forall|i: int| 0 <= i < files.len() ==> (#[trigger] files[i]).0.len() > 0
        },
    decreases entries.len(),
{
    if entries.len() > 0 {
        assets_fit_a_download(zip, entries.drop_last());
        if let Ok(files) = gathered(zip, entries) {
            let before = gathered(zip, entries.drop_last())->Ok_0;
            if files.len() > before.len() {
                assert(files.drop_last() =~= before);
            }
        }
    }
}

/// An archive is refused at the first entry that gives an error, whatever comes
/// behind it.
pub proof fn the_first_refusal_stands(zip: Seq<u8>, entries: Seq<ZipEntry>, n: int)
    requires
        0 <= n <= entries.len(),
        gathered(zip, entries.take(n)) is Err,
    ensures
        gathered(zip, entries) == gathered(zip, entries.take(n)),
    decreases entries.len() - n,
{
    if n < entries.len() {
        assert(entries.take(n + 1).drop_last() =~= entries.take(n));
        the_first_refusal_stands(zip, entries, n + 1);
    } else {
        assert(entries.take(n) =~= entries);
    }
}

/// The files beside a plugin's code, by what the archive's entries are, in the
/// archive's order.
pub fn gather_assets(bytes: &Vec<u8>, entries: &Vec<ZipEntry>) -> (r: Result<
    Vec<AssetFile>,
    AppError,
>)
    ensures
        is_gathered(r, bytes@, entries@),
{
    let mut files: Vec<AssetFile> = Vec::new();
    let mut taken: u64 = 0;
    let mut i: usize = 0;
    assert(asset_notes(files@) =~= Seq::empty());
    while i < entries.len()
        invariant
            i <= entries@.len(),
            gathered(bytes@, entries@.take(i as int)) == Ok::<
                Seq<(Seq<char>, Seq<u8>)>,
                EntryNote,
            >(asset_notes(files@)),
            taken == total_size(asset_notes(files@)),
            taken <= MAX_DOWNLOAD_BYTES,
        decreases entries@.len() - i,
    {
        let ghost here = entries@.take(i + 1);
        assert(here.drop_last() =~= entries@.take(i as int));
        assert(here.last() == entries@[i as int]);
        let wanted = match &entries[i] {
            ZipEntry::File(name) => asset_path(name.as_str()),
            _ => None,
        };
        let content = match wanted {
            Some(_) => read_zip_entry(bytes, i, asset_limit(taken)),
            None => Ok(Vec::new()),
        };
        match take_asset(&entries[i], i, content, taken) {
            Err(e) => {
                proof {
                    the_first_refusal_stands(bytes@, entries@, i + 1);
                }
                return Err(e);
            },
            Ok(None) => {},
            Ok(Some(file)) => {
                taken = taken + file.content.len() as u64;
                let ghost earlier = asset_notes(files@);
                let ghost added = (file.path@, file.content@);
                files.push(file);
                proof {
                    assert(asset_notes(files@) =~= earlier.push(added));
                    assert(asset_notes(files@).drop_last() =~= earlier);
                }
            },
        }
        i = i + 1;
    }
    assert(entries@.take(i as int) =~= entries@);
    Ok(files)
}

/// Whether entries are those that were found of an archive.
pub open spec fn are_entries(zip: Seq<u8>, entries: Seq<ZipEntry>) -> bool {
    forall|i: int|
        0 <= i < entries.len() ==> is_entry(
            #[trigger] entries[i],
            zip_entry_found(zip, i as usize),
        )
}

/// What is below a directory of a path that stays inside stays inside.
proof fn lemma_asset_stays_inside(name: Seq<char>)
    requires
        stays_inside(slashed(name)),
    ensures
        asset_path_of(name) matches Some(path) ==> stays_inside(path),
{
    if let Some(path) = asset_path_of(name) {
        let s = slashed(name);
        reveal_strlit("assets/");
        assert("assets/"@.len() == 7);
        assert(s.take(7) =~= "assets/"@);
        assert forall|i: int| 0 <= i < 7 implies s[i] == "assets/"@[i] by {
            assert(s.take(7)[i] == s[i]);
        }
        text::lemma_first_index(s, '/', 6);
        assert(s.skip(7) =~= path);
        let all = text::split_on(s, '/');
        let below = text::split_on(path, '/');
        assert(all =~= seq![s.take(6)] + below);
        assert forall|k: int| 0 <= k < below.len() implies is_inner(#[trigger] below[k]) by {
            assert(all[k + 1] == below[k]);
        }
    }
}

/// No file of an archive leads out of the directory of the plugin's files: the parts of
/// its path all stay in their directories.
pub proof fn no_asset_leads_out(zip: Seq<u8>, entries: Seq<ZipEntry>)
    requires
        are_entries(zip, entries),
    ensures
        gathered(zip, entries) matches Ok(files) ==> forall|i: int|
            0 <= i < files.len() ==> stays_inside((#[trigger] files[i]).0),
    decreases entries.len(),
{
    if entries.len() > 0 {
        let rest = entries.drop_last();
        let n = entries.len() - 1;
        assert forall|i: int| 0 <= i < rest.len() implies is_entry(
            #[trigger] rest[i],
            zip_entry_found(zip, i as usize),
        ) by {
            assert(rest[i] == entries[i]);
        }
        no_asset_leads_out(zip, rest);
        assert(is_entry(entries[n], zip_entry_found(zip, n as usize)));
        if let ZipEntry::File(name) = entries.last() {
            if name@.len() > 0 {
                lemma_asset_stays_inside(name@);
            }
        }
    }
}

/// An archive in which no file has a part that begins as a drive does holds the same
/// files on every machine.
pub proof fn archives_unpack_alike(zip: Seq<u8>, a: Seq<ZipEntry>, b: Seq<ZipEntry>)
    requires
        a.len() == b.len(),
        are_entries(zip, a),
        are_entries(zip, b),
        forall|i: int| 0 <= i < a.len() ==> !(#[trigger] zip_entry_found(zip, i as usize) is Drive),
    ensures
        gathered(zip, a) == gathered(zip, b),
    decreases a.len(),
{
    if a.len() > 0 {
        let n = a.len() - 1;
        let (x, y) = (a.drop_last(), b.drop_last());
        assert forall|i: int| 0 <= i < x.len() implies is_entry(
            #[trigger] x[i],
            zip_entry_found(zip, i as usize),
        ) by {
            assert(x[i] == a[i]);
        }
        assert forall|i: int| 0 <= i < y.len() implies is_entry(
            #[trigger] y[i],
            zip_entry_found(zip, i as usize),
        ) by {
            assert(y[i] == b[i]);
        }
        archives_unpack_alike(zip, x, y);
        assert(is_entry(a[n], zip_entry_found(zip, n as usize)));
        assert(is_entry(b[n], zip_entry_found(zip, n as usize)));
    }
}

/// The files beside a plugin's code: those below `assets` of the archive's entries. None
/// of them leads out of their directory.
pub fn plugin_assets(bytes: &Vec<u8>) -> (r: Result<Vec<AssetFile>, AppError>)
    ensures
        match zip_entry_count(bytes@) {
            Err(m) => r matches Err(e) && error::says(e, "open plugin zip: "@ + m),
            Ok(n) => exists|entries: Seq<ZipEntry>|
                entries.len() == n && are_entries(bytes@, entries) && #[trigger] is_gathered(
                    r,
                    bytes@,
                    entries,
                ),
        },
        r matches Ok(files) ==> forall|i: int|
            0 <= i < files@.len() ==> stays_inside((#[trigger] files@[i]).path@),
{
    let total: usize = match count_zip_entries(bytes) {
        Ok(n) => n,
        Err(why) => {
            let m = around("open plugin zip: ", why.as_str(), "");
            proof {
                reveal_strlit("");
                assert(m@ =~= "open plugin zip: "@ + why@);
            }
            return Err(AppError::Other(m));
        },
    };
    let mut entries: Vec<ZipEntry> = Vec::new();
    while entries.len() < total
        invariant
            entries@.len() <= total,
            are_entries(bytes@, entries@),
        decreases total - entries@.len(),
    {
        let entry = zip_entry(bytes, entries.len());
        entries.push(entry);
    }
    let r = gather_assets(bytes, &entries);
    proof {
        no_asset_leads_out(bytes@, entries@);
        if r is Ok {
            let files = r->Ok_0;
            assert forall|i: int| 0 <= i < files@.len() implies stays_inside(
                (#[trigger] files@[i]).path@,
            ) by {
                assert(asset_notes(files@)[i].0 == files@[i].path@);
            }
        }
    }
    r
}

/// The name of the directory that a plugin is unpacked into before it takes its
/// place: no plugin's own, since no plugin's id begins so.
pub fn staging_dir(plugin_id: &str) -> (r: String)
    ensures
        r@ == ".staging-"@ + plugin_id@,
        !plugins::is_plugin_id(r@),
{
    let r = around(".staging-", plugin_id, "");
    proof {
        reveal_strlit("");
        reveal_strlit(".staging-");
        assert(r@ =~= ".staging-"@ + plugin_id@);
        assert(!plugins::is_id_char(r@[0]));
    }
    r
}

// What holds of all of them.

/// The registry is asked for at the application's own site first, at the repository
/// next, and at its mirror last.
pub proof fn the_registry_has_three_places()
    ensures
        registry_urls().len() == 3,
        registry_urls()[0] == "https://waveflow.app/api/plugins/registry"@,
        registry_urls()[1]
            == "https://raw.githubusercontent.com/InstaZDLL/waveflow-plugins/main/registry.json"@,
        registry_urls()[2]
            == "https://cdn.jsdelivr.net/gh/InstaZDLL/waveflow-plugins@main/registry.json"@,
{
}

proof fn lemma_no_separator(n: nat)
    ensures
        forall|i: int|
            0 <= i < decimal::nat_text(n).len() ==> #[trigger] decimal::nat_text(n)[i] != '.'
                && decimal::nat_text(n)[i] != '-',
{
    decimal::lemma_nat_text_digits(n);
}

proof fn lemma_before_hyphen(v: Seq<char>, suffix: Seq<char>)
    requires
        forall|i: int| 0 <= i < v.len() ==> #[trigger] v[i] != '-',
    ensures
        text::before_part(v, "-"@) == v,
        text::before_part(v + "-"@ + suffix, "-"@) == v,
{
    reveal_strlit("-");
    let s = v + "-"@ + suffix;
    assert forall|k: int| 0 <= k < v.len() implies !(#[trigger] text::occurs_at(v, "-"@, k)) by {
        if text::occurs_at(v, "-"@, k) {
            assert(v.subrange(k, k + 1)[0] == v[k]);
            assert("-"@[0] == '-');
        }
    }
    text::the_first_part_ends_what_is_before(v, "-"@, v.len() as int);
    assert(v.take(v.len() as int) =~= v);
    assert forall|k: int| 0 <= k < v.len() implies !(#[trigger] text::occurs_at(s, "-"@, k)) by {
        if text::occurs_at(s, "-"@, k) {
            assert(s.subrange(k, k + 1)[0] == s[k]);
            assert(s[k] == v[k]);
            assert("-"@[0] == '-');
        }
    }
    assert(s.subrange(v.len() as int, v.len() as int + 1) =~= "-"@);
    assert(text::occurs_at(s, "-"@, v.len() as int));
    text::the_first_part_ends_what_is_before(s, "-"@, v.len() as int);
    assert(s.take(v.len() as int) =~= v);
}

/// A version is read as its three numbers, whatever stands behind a hyphen; numbers that
/// are not there are zero.
pub proof fn a_version_is_its_numbers(a: nat, b: nat, c: nat, suffix: Seq<char>)
    requires
        a <= u32::MAX,
        b <= u32::MAX,
        c <= u32::MAX,
    ensures
        ({
            let one = decimal::nat_text(a);
            let two = one + "."@ + decimal::nat_text(b);
            let three = two + "."@ + decimal::nat_text(c);
            &&& semver(one) == (a, 0nat, 0nat)
            &&& semver(two) == (a, b, 0nat)
            &&& semver(three) == (a, b, c)
            &&& semver(one + "-"@ + suffix) == (a, 0nat, 0nat)
            &&& semver(two + "-"@ + suffix) == (a, b, 0nat)
            &&& semver(three + "-"@ + suffix) == (a, b, c)
        }),
{
    reveal_strlit(".");
    let (x, y, z) = (decimal::nat_text(a), decimal::nat_text(b), decimal::nat_text(c));
    lemma_no_separator(a);
    lemma_no_separator(b);
    lemma_no_separator(c);
    decimal::a_written_number_reads_back(a as int);
    decimal::a_written_number_reads_back(b as int);
    decimal::a_written_number_reads_back(c as int);
    text::a_separator_parts_the_pieces(x, '.', y);
    text::a_separator_parts_the_pieces(y, '.', z);
    text::a_separator_parts_the_pieces(z, '.', z);
    text::a_separator_parts_the_pieces(x, '.', y.push('.') + z);
    let two = x + "."@ + y;
    let three = two + "."@ + z;
    assert(two =~= x.push('.') + y);
    assert(three =~= x.push('.') + (y.push('.') + z));
    assert forall|i: int| 0 <= i < two.len() implies #[trigger] two[i] != '-' by {
        if i < x.len() {
            assert(two[i] == x[i]);
        } else if i > x.len() {
            assert(two[i] == y[i - x.len() - 1]);
        }
    }
    assert forall|i: int| 0 <= i < three.len() implies #[trigger] three[i] != '-' by {
        if i < two.len() {
            assert(three[i] == two[i]);
        } else if i > two.len() {
            assert(three[i] == z[i - two.len() - 1]);
        }
    }
    lemma_before_hyphen(x, suffix);
    lemma_before_hyphen(two, suffix);
    lemma_before_hyphen(three, suffix);
    assert(text::split_on(x, '.') == seq![x]);
    assert(text::split_on(two, '.') =~= seq![x, y]);
    assert(text::split_on(three, '.') =~= seq![x, y, z]);
    assert(is_version_number(x) && is_version_number(y) && is_version_number(z));
    assert(is_version(x) && is_version(two) && is_version(three));
    assert(is_version(x + "-"@ + suffix));
    assert(is_version(two + "-"@ + suffix));
    assert(is_version(three + "-"@ + suffix));
}

proof fn lemma_kept_by_a_piece(s: Seq<char>, c: char, k: int) -> (at: (int, int))
    requires
        0 <= k < s.len(),
        s[k] != c,
    ensures
        0 <= at.0 < text::split_on(s, c).len(),
        0 <= at.1 < text::split_on(s, c)[at.0].len(),
        text::split_on(s, c)[at.0][at.1] == s[k],
    decreases s.len(),
{
    text::lemma_first_index_bounds(s, c);
    let n = text::first_index(s, c);
    if k < n {
        (0, k)
    } else {
        let rest = s.skip(n + 1);
        let deeper = lemma_kept_by_a_piece(rest, c, k - n - 1);
        assert(text::split_on(s, c) == seq![s.take(n)] + text::split_on(rest, c));
        (deeper.0 + 1, deeper.1)
    }
}

/// A version with anything but numbers between its full stops counts as no version at
/// all: every number of it is zero.
pub proof fn a_version_without_numbers_is_zero(v: Seq<char>, k: int)
    requires
        forall|i: int| 0 <= i < v.len() ==> #[trigger] v[i] != '-',
        0 <= k < v.len(),
        !('0' <= v[k] <= '9'),
        v[k] != '.',
        v[k] != '+',
    ensures
        semver(v) == (0nat, 0nat, 0nat),
{
    lemma_before_hyphen(v, v);
    let at = lemma_kept_by_a_piece(v, '.', k);
    let piece = text::split_on(v, '.')[at.0];
    if is_version(v) {
        assert(version_pieces(v)[at.0] == piece);
        assert(is_version_number(piece));
        if piece.len() > 1 && piece[0] == '+' {
            assert(piece.skip(1)[at.1 - 1] == piece[at.1]);
        }
        assert(false);
    }
}

/// The first number in which two versions differ decides between them.
pub proof fn the_first_differing_number_decides(
    a: (nat, nat, nat),
    b: (nat, nat, nat),
    app: Seq<char>,
    min: Seq<char>,
)
    requires
        a.0 <= u32::MAX && a.1 <= u32::MAX && a.2 <= u32::MAX,
        b.0 <= u32::MAX && b.1 <= u32::MAX && b.2 <= u32::MAX,
        app == decimal::nat_text(a.0) + "."@ + decimal::nat_text(a.1) + "."@ + decimal::nat_text(
            a.2,
        ),
        min == decimal::nat_text(b.0) + "."@ + decimal::nat_text(b.1) + "."@ + decimal::nat_text(
            b.2,
        ),
    ensures
        will_do(app, None),
        a.0 > b.0 ==> will_do(app, Some(min)),
        a.0 < b.0 ==> !will_do(app, Some(min)),
        a.0 == b.0 && a.1 > b.1 ==> will_do(app, Some(min)),
        a.0 == b.0 && a.1 < b.1 ==> !will_do(app, Some(min)),
        a.0 == b.0 && a.1 == b.1 && a.2 > b.2 ==> will_do(app, Some(min)),
        a.0 == b.0 && a.1 == b.1 && a.2 < b.2 ==> !will_do(app, Some(min)),
        a == b ==> will_do(app, Some(min)),
{
    a_version_is_its_numbers(a.0, a.1, a.2, app);
    a_version_is_its_numbers(b.0, b.1, b.2, min);
}

/// The plugin that is installed is the first of the registry with its id.
pub proof fn the_first_of_an_id_is_installed(entries: Seq<RegistryEntry>, id: Seq<char>, k: int)
    requires
        0 <= k <= entries.len(),
        k < entries.len() ==> entries[k].id@ == id,
        forall|j: int| 0 <= j < k ==> (#[trigger] entries[j]).id@ != id,
    ensures
        entry_index(entries, id) == k,
    decreases entries.len(),
{
    if k > 0 {
        assert(entries[0].id@ != id);
        let rest = entries.drop_first();
        assert forall|j: int| 0 <= j < k - 1 implies (#[trigger] rest[j]).id@ != id by {
            assert(rest[j] == entries[j + 1]);
        }
        the_first_of_an_id_is_installed(rest, id, k - 1);
    }
}

/// A release is the file that its entry names, or the archive called after the plugin and
/// its version, of that version's release.
pub proof fn a_release_is_where_its_entry_says(entry: RegistryEntry)
    ensures
        entry.asset is None ==> release_url(entry) == "https://github.com/"@ + entry.repo@
            + "/releases/download/v"@ + entry.version@ + "/"@ + (entry.id@ + "-v"@ + entry.version@
            + ".zip"@),
        entry.asset is Some ==> release_url(entry) == "https://github.com/"@ + entry.repo@
            + "/releases/download/v"@ + entry.version@ + "/"@ + entry.asset->0@,
{
}

/// What is said of a plugin that is refused names the plugin, what was expected and what
/// there is.
pub proof fn a_refusal_names_what_there_is(
    entry: RegistryEntry,
    version: u32,
    a: Seq<char>,
    b: Seq<char>,
    c: Seq<char>,
)
    ensures
        schema_complaint(version) == "unsupported plugin-registry schema_version "@
            + decimal::nat_text(version as nat) + " (this build supports 1); update WaveFlow"@,
        entry.min_app_version is Some ==> version_complaint(entry, a) == entry.name@
            + " requires WaveFlow "@ + entry.min_app_version->0@ + " or newer (you have "@ + a
            + ")"@,
        hash_complaint(a, b, c) == "blake3 mismatch for "@ + a + ": registry pins "@ + b
            + ", download is "@ + c + " — refusing"@,
{
}

/// The code of a plugin may hold fifty megabytes and its manifest a quarter of one: a file
/// that is there and no larger is taken whole, and what is read of it goes no further than
/// one byte beyond.
pub proof fn a_file_within_its_size_is_taken(zip: Seq<u8>, c: Seq<u8>, why: Seq<char>, max: u64)
    ensures
        wasm_member(zip) == zip_member(zip, "plugin.wasm"@, 52_428_801),
        manifest_member(zip) == zip_member(zip, "manifest.toml"@, 262_145),
        MAX_WASM_SIZE == 52_428_800,
        MAX_MANIFEST_SIZE == 262_144,
        MAX_DOWNLOAD_BYTES == 67_108_864,
        c.len() <= max ==> member_content(MemberNote::Content(c), max) == Some(c),
        c.len() > max ==> member_content(MemberNote::Content(c), max) is None,
        member_content(MemberNote::Missing, max) is None,
        member_content(MemberNote::NotAZip(why), max) is None,
        member_content(MemberNote::Unreadable(why), max) is None,
        member_content(MemberNote::Broken(why), max) is None,
{
}

/// A file that cannot be had is refused in words that name it.
pub proof fn a_missing_file_is_named(e: AppError, name: Seq<char>, m: Seq<char>, c: Seq<u8>, max: u64)
    ensures
        is_member_error(e, MemberNote::Missing, name, max) ==> error::says(
            e,
            "plugin zip missing "@ + name,
        ),
        is_member_error(e, MemberNote::NotAZip(m), name, max) ==> error::says(
            e,
            "open plugin zip: "@ + m,
        ),
        is_member_error(e, MemberNote::Unreadable(m), name, max) ==> error::says(
            e,
            "read "@ + name + " from plugin zip: "@ + m,
        ),
        is_member_error(e, MemberNote::Broken(m), name, max) ==> e is Io && e->Io_0@ == m,
        is_member_error(e, MemberNote::Content(c), name, max) ==> error::says(
            e,
            name + " exceeds "@ + decimal::nat_text(max as nat) + " bytes — refusing"@,
        ),
{
}

/// Joining a name by slashes changes its backslashes and nothing else.
pub proof fn only_backslashes_become_slashes(name: Seq<char>)
    ensures
        slashed(name).len() == name.len(),
        forall|i: int|
            0 <= i < name.len() ==> #[trigger] slashed(name)[i] == (if name[i] == '\\' {
                '/'
            } else {
                name[i]
            }),
{
}

/// A file below `assets` goes under the rest of its name, whichever way the machine joins
/// names, and a file anywhere else goes nowhere.
pub proof fn a_file_below_assets_keeps_its_path(path: Seq<char>, name: Seq<char>)
    requires
        path.len() > 0,
        forall|i: int| 0 <= i < path.len() ==> #[trigger] path[i] != '\\',
        !"assets/"@.is_prefix_of(name),
        forall|i: int| 0 <= i < name.len() ==> #[trigger] name[i] != '\\',
    ensures
        asset_path_of("assets/"@ + path) == Some(path),
        asset_path_of("assets\\"@ + path) == Some(path),
        asset_path_of("assets/"@) is None,
        asset_path_of(name) is None,
{
    reveal_strlit("assets/");
    reveal_strlit("assets\\");
    let plain = "assets/"@ + path;
    assert(slashed(plain) =~= plain);
    assert(plain.skip(7) =~= path);
    assert("assets/"@.is_prefix_of(plain));
    let other = "assets\\"@ + path;
    assert(slashed(other) =~= plain);
    assert(slashed(name) =~= name);
    assert(slashed("assets/"@) =~= "assets/"@);
}

/// What becomes of an entry: only a file below `assets` is taken, with all that it holds,
/// and only while no more than a download's size has been taken with it.
pub proof fn an_entry_is_taken_by_what_it_is(
    name: String,
    path: Seq<char>,
    m: String,
    index: nat,
    c: Seq<u8>,
    why: Seq<char>,
    taken: nat,
)
    ensures
        entry_note(ZipEntry::Directory, index, Ok(c), taken) is Skipped,
        entry_note(ZipEntry::Outside, index, Ok(c), taken) is Skipped,
        entry_note(ZipEntry::Unreadable(m), index, Ok(c), taken) == EntryNote::Refused(
            "read plugin zip entry "@ + decimal::nat_text(index) + ": "@ + m@,
        ),
        asset_path_of(name@) is None ==> entry_note(ZipEntry::File(name), index, Ok(c), taken)
            is Skipped,
        asset_path_of(name@) == Some(path) ==> {
            &&& taken + c.len() <= 67_108_864 ==> entry_note(
                ZipEntry::File(name),
                index,
                Ok(c),
                taken,
            ) == EntryNote::Taken(path, c)
            &&& taken + c.len() > 67_108_864 ==> entry_note(
                ZipEntry::File(name),
                index,
                Ok(c),
                taken,
            ) == EntryNote::Refused("plugin assets exceed 67108864 bytes — refusing"@)
            &&& entry_note(ZipEntry::File(name), index, Err(why), taken) == EntryNote::Broken(why)
        },
{
}

/// One more entry adds its file behind the others, or nothing, or ends in its error; an
/// error before it stands.
pub proof fn an_archive_is_gathered_entry_by_entry(zip: Seq<u8>, entries: Seq<ZipEntry>, entry: ZipEntry)
    requires
        entries.len() < usize::MAX,
    ensures
        gathered(zip, Seq::<ZipEntry>::empty()) == Ok::<Seq<(Seq<char>, Seq<u8>)>, EntryNote>(
            Seq::empty(),
        ),
        gathered(zip, entries) is Err ==> gathered(zip, entries.push(entry)) == gathered(
            zip,
            entries,
        ),
        gathered(zip, entries) matches Ok(files) ==> ({
            let taken = total_size(files);
            let content = zip_content(
                zip,
                entries.len() as usize,
                (67_108_864 - taken + 1) as u64,
            );
            match entry_note(entry, entries.len(), content, taken) {
                EntryNote::Skipped => gathered(zip, entries.push(entry)) == Ok::<
                    Seq<(Seq<char>, Seq<u8>)>,
                    EntryNote,
                >(files),
                EntryNote::Taken(path, c) => gathered(zip, entries.push(entry)) == Ok::<
                    Seq<(Seq<char>, Seq<u8>)>,
                    EntryNote,
                >(files.push((path, c))),
                note => gathered(zip, entries.push(entry)) == Err::<
                    Seq<(Seq<char>, Seq<u8>)>,
                    EntryNote,
                >(note),
            }
        }),
{
    assert(entries.push(entry).drop_last() =~= entries);
}

/// The size of some files is that of the files before the last and of the last.
pub proof fn sizes_add_up(files: Seq<(Seq<char>, Seq<u8>)>, path: Seq<char>, c: Seq<u8>)
    ensures
        total_size(Seq::<(Seq<char>, Seq<u8>)>::empty()) == 0,
        total_size(files.push((path, c))) == total_size(files) + c.len(),
{
    assert(files.push((path, c)).drop_last() =~= files);
}

/// The files that are handed out are those of the archive, each with its own path and
/// content.
pub proof fn files_are_handed_out_as_they_are(files: Seq<AssetFile>)
    ensures
        asset_notes(files).len() == files.len(),
        forall|i: int|
            0 <= i < files.len() ==> #[trigger] asset_notes(files)[i] == (
                files[i].path@,
                files[i].content@,
            ),
{
}

/// A path stays inside where each of its parts is a name, and neither missing nor a step
/// to the directory itself or to the one above.
pub proof fn a_step_up_leads_out(part: Seq<char>, rest: Seq<char>)
    requires
        forall|i: int| 0 <= i < part.len() ==> #[trigger] part[i] != '/',
    ensures
        stays_inside(part) <==> part.len() > 0 && part != "."@ && part != ".."@,
        stays_inside(part.push('/') + rest) <==> part.len() > 0 && part != "."@ && part != ".."@
            && stays_inside(rest),
{
    text::a_separator_parts_the_pieces(part, '/', rest);
    let whole = part.push('/') + rest;
    let pieces = text::split_on(whole, '/');
    let later = text::split_on(rest, '/');
    assert(text::split_on(part, '/')[0] == part);
    assert(pieces[0] == part);
    if stays_inside(whole) {
        assert(is_inner(pieces[0]));
        assert forall|k: int| 0 <= k < later.len() implies is_inner(#[trigger] later[k]) by {
            assert(pieces[k + 1] == later[k]);
            assert(is_inner(pieces[k + 1]));
        }
    }
    if is_inner(part) && stays_inside(rest) {
        assert forall|k: int| 0 <= k < pieces.len() implies is_inner(#[trigger] pieces[k]) by {
            if k > 0 {
                assert(pieces[k] == later[k - 1]);
            }
        }
    }
    if stays_inside(part) {
        assert(is_inner(text::split_on(part, '/')[0]));
    }
}

/// What is handed out of an archive is what was gathered: the files in order, each with its
/// path and content, or an error in the words of the first entry that was refused.
pub proof fn an_archive_is_handed_out_as_gathered(
    r: Result<Vec<AssetFile>, AppError>,
    zip: Seq<u8>,
    entries: Seq<ZipEntry>,
)
    requires
        is_gathered(r, zip, entries),
    ensures
        r is Ok <==> gathered(zip, entries) is Ok,
        r is Ok ==> {
            let files = gathered(zip, entries)->Ok_0;
            &&& r->Ok_0@.len() == files.len()
            &&& forall|i: int|
                0 <= i < files.len() ==> (#[trigger] r->Ok_0@[i]).path@ == files[i].0
                    && r->Ok_0@[i].content@ == files[i].1
        },
        gathered(zip, entries) matches Err(EntryNote::Refused(m)) ==> error::says(r->Err_0, m),
        gathered(zip, entries) matches Err(EntryNote::Broken(m)) ==> r->Err_0 is Io
            && r->Err_0->Io_0@ == m,
{
    if r is Ok {
        let files = gathered(zip, entries)->Ok_0;
        assert forall|i: int| 0 <= i < files.len() implies (#[trigger] r->Ok_0@[i]).path@
            == files[i].0 && r->Ok_0@[i].content@ == files[i].1 by {
            assert(asset_notes(r->Ok_0@)[i] == files[i]);
        }
    }
}

/// What was read is told as it is, and so is why nothing was.
pub proof fn what_was_read_is_told_as_it_is(c: Vec<u8>, m: String)
    ensures
        read_note(Ok(c)) == Ok::<Seq<u8>, Seq<char>>(c@),
        read_note(Err(m)) == Err::<Seq<u8>, Seq<char>>(m@),
{
}

/// What reading a file of an archive comes to is told as it is.
pub proof fn a_member_is_told_as_it_is(m: String, c: Vec<u8>)
    ensures
        ZipMember::NotAZip(m)@ == MemberNote::NotAZip(m@),
        ZipMember::Missing@ is Missing,
        ZipMember::Unreadable(m)@ == MemberNote::Unreadable(m@),
        ZipMember::Broken(m)@ == MemberNote::Broken(m@),
        ZipMember::Content(c)@ == MemberNote::Content(c@),
{
}

} // verus!
