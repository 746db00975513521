//! Scanning a library folder: which files are read again, what is written for
//! each one, and what the counters say at the end.

use vstd::prelude::*;

use crate::decimal;
use crate::decimal::i64_text;
use crate::error::AppError;
use crate::text;
use crate::text::{clone_opt, list_has, same_text};
use vstd::string::StringExecFns;
use crate::text_map::TextMap;

verus! {

/// Tracks written between two commits of the scan's transaction.
pub const TX_BATCH: usize = 200;

/// A progress event goes out every this many files.
pub const PROGRESS_EVERY: usize = 25;

/// How many scans are running.
pub struct ScansInFlight {
    pub count: u32,
}

/// Whether at least one scan is running.
pub fn scan_in_flight(scans: &ScansInFlight) -> (r: bool)
    ensures
        r == (scans.count > 0),
{
    scans.count > 0
}

/// Held for as long as one scan runs.
pub struct ScanInFlightGuard {
    held: bool,
}

impl ScanInFlightGuard {
    /// The guard has not been given back.
    pub closed spec fn is_held(&self) -> bool {
        self.held
    }

    /// Count one more scan.
    pub fn new(scans: &mut ScansInFlight) -> (g: Self)
        requires
            old(scans).count < u32::MAX,
        ensures
            final(scans).count == old(scans).count + 1,
            g.is_held(),
    {
        scans.count = scans.count + 1;
        ScanInFlightGuard { held: true }
    }

    /// Count one scan less.
    pub fn release(self, scans: &mut ScansInFlight)
        requires
            self.is_held(),
            old(scans).count > 0,
        ensures
            final(scans).count == old(scans).count - 1,
    {
        scans.count = scans.count - 1;
    }
}

/// What the interface is told while a scan runs.
#[derive(Clone, Copy, PartialEq, Eq, Debug)]
pub struct ScanProgress {
    pub folder_id: i64,
    pub current: usize,
    pub total: usize,
    pub added: u32,
    pub updated: u32,
    pub skipped: u32,
    pub errors: u32,
    pub done: bool,
}

/// What a scan came to.
#[derive(PartialEq, Eq, Debug)]
pub struct ScanSummary {
    pub folder_id: i64,
    pub scanned: u32,
    pub added: u32,
    pub updated: u32,
    pub skipped: u32,
    pub errors: u32,
    /// Tracks whose file is gone. The row stays, marked unavailable.
    pub removed: u32,
}

/// A file on disk, as far as a scan compares it.
#[derive(Clone, Copy, PartialEq, Eq, Debug)]
pub struct DiskStat {
    pub size: i64,
    pub modified_ms: i64,
}

/// A track that the library already has, found by its path.
#[derive(PartialEq, Eq, Debug)]
pub struct ProbeRow {
    pub track_id: i64,
    pub modified_ms: i64,
    pub hash: String,
    pub added_at: i64,
}

/// A cover that was found for a track.
#[derive(PartialEq, Eq, Debug)]
pub struct CoverArt {
    pub hash: String,
    pub format: String,
    pub source: String,
}

/// Everything read out of one audio file.
#[derive(PartialEq, Eq, Debug)]
pub struct ExtractedFile {
    pub abs_path: String,
    pub size: i64,
    pub modified_ms: i64,
    pub hash: String,
    pub title: String,
    pub artist: Option<String>,
    pub album: Option<String>,
    pub album_artist: Option<String>,
    pub is_compilation: bool,
    pub genre: Option<String>,
    pub year: Option<i64>,
    pub track_number: Option<i64>,
    pub disc_number: Option<i64>,
    pub duration_ms: i64,
    pub bitrate: Option<i64>,
    pub sample_rate: Option<i64>,
    pub channels: Option<i64>,
    pub bit_depth: Option<i64>,
    pub codec: Option<String>,
    pub musical_key: Option<String>,
    pub cover_art: Option<CoverArt>,
    pub rating: Option<u8>,
}

/// What a file turned out to be, against the rows of its library.
#[derive(Clone, Copy, PartialEq, Eq, Debug, Structural)]
pub enum Verdict {
    /// Known, with the same modification time and content.
    Unchanged { track_id: i64, added_at: i64 },
    /// Known, but one of the two differs.
    Changed { track_id: i64, added_at: i64 },
    /// Not known.
    New,
}

/// What to do with a file that the walk found.
#[derive(PartialEq, Eq, Debug)]
pub enum Walked {
    /// Nothing changed since the last scan.
    Skip { tick: Option<ScanProgress> },
    /// Read it.
    Extract,
}

/// What follows a file that was written.
#[derive(PartialEq, Eq, Debug)]
pub struct Written {
    pub commit: bool,
    pub tick: Option<ScanProgress>,
}

/// One running scan.
pub struct Scan {
    pub summary: ScanSummary,
    /// Files that the walk found.
    pub total: usize,
    /// Files that the walk kept for reading.
    pub queued: usize,
    /// Files done, those that were skipped unread among them.
    pub processed: usize,
    /// Tracks written since the last commit.
    pub batch: usize,
    /// The folder's available tracks that the scan has not met yet.
    pub known: TextMap<DiskStat>,
    /// The library's tracks, by path.
    pub probe: TextMap<ProbeRow>,
}

/// Counters as a progress event carries them.
pub open spec fn progress_of(s: ScanSummary, current: usize, total: usize, done: bool) -> ScanProgress {
    ScanProgress {
        folder_id: s.folder_id,
        current,
        total,
        added: s.added,
        updated: s.updated,
        skipped: s.skipped,
        errors: s.errors,
        done,
    }
}

/// The event that goes out after `current` of `total` files, if any does.
pub open spec fn tick_of(s: ScanSummary, current: usize, total: usize) -> Option<ScanProgress> {
    if current == total || current as int % PROGRESS_EVERY as int == 0 {
        Some(progress_of(s, current, total, false))
    } else {
        None
    }
}

/// What the library's rows say of a file that was read.
pub open spec fn verdict_of(
    probe: Map<Seq<char>, ProbeRow>,
    path: Seq<char>,
    modified_ms: i64,
    hash: Seq<char>,
) -> Verdict {
    if !probe.contains_key(path) {
        Verdict::New
    } else {
        let row = probe[path];
        if row.modified_ms == modified_ms && row.hash@ == hash {
            Verdict::Unchanged { track_id: row.track_id, added_at: row.added_at }
        } else {
            Verdict::Changed { track_id: row.track_id, added_at: row.added_at }
        }
    }
}

/// Whether a known file is the same on disk.
pub open spec fn same_on_disk(
    known: Map<Seq<char>, DiskStat>,
    path: Seq<char>,
    stat: Option<DiskStat>,
) -> bool {
    &&& known.contains_key(path)
    &&& stat matches Some(d) && d.size == known[path].size && d.modified_ms
        == known[path].modified_ms
}

/// Copies the counters of a summary into a progress event.
fn progress(s: &ScanSummary, current: usize, total: usize, done: bool) -> (r: ScanProgress)
    ensures
        r == progress_of(*s, current, total, done),
{
    ScanProgress {
        folder_id: s.folder_id,
        current,
        total,
        added: s.added,
        updated: s.updated,
        skipped: s.skipped,
        errors: s.errors,
        done,
    }
}

/// The progress event due after `current` of `total` files: the last one, and
/// every twenty-fifth.
pub fn maybe_emit_progress(s: &ScanSummary, current: usize, total: usize) -> (r: Option<ScanProgress>)
    ensures
        r == tick_of(*s, current, total),
        r is Some <==> current == total || current % 25 == 0,
        r matches Some(p) ==> p.folder_id == s.folder_id && p.current == current && p.total == total
            && p.added == s.added && p.updated == s.updated && p.skipped == s.skipped && p.errors
            == s.errors && !p.done,
{
    if current != total && current % PROGRESS_EVERY != 0 {
        None
    } else {
        Some(progress(s, current, total, false))
    }
}

/// The error for a folder that the library does not have.
pub fn folder_not_found(folder_id: i64) -> (e: AppError)
    ensures
        e matches AppError::Other(m) && m@ == "folder "@ + decimal::int_text(folder_id as int)
            + " not found"@,
{
    AppError::Other("folder ".to_owned().concat(i64_text(folder_id).as_str()).concat(" not found"))
}

impl Scan {
    /// While the tree is walked: each file was skipped or queued.
    pub open spec fn walking(&self) -> bool {
        &&& self.known.wf()
        &&& self.probe.wf()
        &&& self.total <= u32::MAX
        &&& self.summary.scanned <= self.total
        &&& self.summary.scanned == self.summary.skipped + self.queued
        &&& self.summary.added == 0
        &&& self.summary.updated == 0
        &&& self.summary.errors == 0
        &&& self.batch == 0
    }

    /// While files are read: each file done is in exactly one counter, and the
    /// open transaction holds less than a batch.
    pub open spec fn reading(&self) -> bool {
        &&& self.known.wf()
        &&& self.probe.wf()
        &&& self.total <= u32::MAX
        &&& self.summary.scanned == self.total
        &&& self.processed <= self.total
        &&& self.summary.added + self.summary.updated + self.summary.skipped + self.summary.errors
            == self.processed
        &&& self.batch < TX_BATCH
    }

    /// A scan of `total` files, over the folder's available tracks and the
    /// library's tracks.
    pub fn begin(
        folder_id: i64,
        total: usize,
        known: TextMap<DiskStat>,
        probe: TextMap<ProbeRow>,
    ) -> (s: Self)
        requires
            total <= u32::MAX,
            known.wf(),
            probe.wf(),
        ensures
            s.walking(),
            s.total == total,
            s.known == known,
            s.probe == probe,
            s.summary == (ScanSummary {
                folder_id,
                scanned: 0,
                added: 0,
                updated: 0,
                skipped: 0,
                errors: 0,
                removed: 0,
            }),
    {
        Scan {
            summary: ScanSummary {
                folder_id,
                scanned: 0,
                added: 0,
                updated: 0,
                skipped: 0,
                errors: 0,
                removed: 0,
            },
            total,
            queued: 0,
            processed: 0,
            batch: 0,
            known,
            probe,
        }
    }

    /// The event that goes out before the first file, so that the interface
    /// knows the size of the work.
    pub fn opening_progress(&self) -> (r: ScanProgress)
        requires
            self.walking(),
            self.summary.skipped == 0,
        ensures
            r == (ScanProgress {
                folder_id: self.summary.folder_id,
                current: 0,
                total: self.total,
                added: 0,
                updated: 0,
                skipped: 0,
                errors: 0,
                done: false,
            }),
    {
        progress(&self.summary, 0, self.total, false)
    }

    /// Whether the file's state on disk decides anything: only of a known one.
    pub fn wants_stat(&self, path: &str) -> (r: bool)
        requires
            self.known.wf(),
        ensures
            r == self.known@.contains_key(path@),
    {
        self.known.get(path).is_some()
    }

    /// Take the next file of the walk. A known file with the size and the
    /// modification time of its row is skipped and no longer counts as missing.
    pub fn walk_one(&mut self, path: &str, stat: Option<DiskStat>) -> (r: Walked)
        requires
            old(self).walking(),
            old(self).summary.scanned < old(self).total,
        ensures
            final(self).walking(),
            final(self).total == old(self).total,
            final(self).probe == old(self).probe,
            final(self).processed == old(self).processed,
            final(self).summary.folder_id == old(self).summary.folder_id,
            final(self).summary.removed == old(self).summary.removed,
            final(self).summary.scanned == old(self).summary.scanned + 1,
            same_on_disk(old(self).known@, path@, stat) ==> {
                &&& final(self).known@ == old(self).known@.remove(path@)
                &&& final(self).summary.skipped == old(self).summary.skipped + 1
                &&& final(self).queued == old(self).queued
                &&& r == (Walked::Skip {
                    tick: tick_of(
                        final(self).summary,
                        final(self).summary.scanned as usize,
                        final(self).total,
                    ),
                })
            },
            !same_on_disk(old(self).known@, path@, stat) ==> {
                &&& final(self).known == old(self).known
                &&& final(self).summary.skipped == old(self).summary.skipped
                &&& final(self).queued == old(self).queued + 1
                &&& r == Walked::Extract
            },
    {
        self.summary.scanned = self.summary.scanned + 1;
        let same = match self.known.get(path) {
            Some(row) => match stat {
                Some(d) => d.size == row.size && d.modified_ms == row.modified_ms,
                None => false,
            },
            None => false,
        };
        if same {
            self.known.remove(path);
            self.summary.skipped = self.summary.skipped + 1;
            let tick = maybe_emit_progress(
                &self.summary,
                self.summary.scanned as usize,
                self.total,
            );
            Walked::Skip { tick }
        } else {
            self.queued = self.queued + 1;
            Walked::Extract
        }
    }

    /// The walk is over; the queued files are read next.
    pub fn begin_reading(&mut self)
        requires
            old(self).walking(),
            old(self).summary.scanned == old(self).total,
        ensures
            final(self).reading(),
            final(self).processed == old(self).summary.skipped,
            final(self).processed + final(self).queued == final(self).total,
            final(self).summary == old(self).summary,
            final(self).known == old(self).known,
            final(self).probe == old(self).probe,
            final(self).total == old(self).total,
            final(self).queued == old(self).queued,
            final(self).batch == old(self).batch,
    {
        self.processed = self.summary.skipped as usize;
    }

    /// A queued file could not be read and is still on disk. Nothing is written and
    /// no event goes out, and the file does not count as missing.
    pub fn file_failed(&mut self, path: &str)
        requires
            old(self).reading(),
            old(self).processed < old(self).total,
        ensures
            final(self).reading(),
            final(self).processed == old(self).processed + 1,
            final(self).summary == (ScanSummary {
                errors: (old(self).summary.errors + 1) as u32,
                ..old(self).summary
            }),
            final(self).known@ == old(self).known@.remove(path@),
            final(self).probe == old(self).probe,
            final(self).total == old(self).total,
            final(self).queued == old(self).queued,
            final(self).batch == old(self).batch,
    {
        self.known.remove(path);
        self.processed = self.processed + 1;
        self.summary.errors = self.summary.errors + 1;
    }

    /// A queued file could not be read, since it is no longer on disk. Nothing is
    /// written and no event goes out, and the file still counts as missing if the
    /// library knows it.
    pub fn file_vanished(&mut self)
        requires
            old(self).reading(),
            old(self).processed < old(self).total,
        ensures
            final(self).reading(),
            final(self).processed == old(self).processed + 1,
            final(self).summary == (ScanSummary {
                errors: (old(self).summary.errors + 1) as u32,
                ..old(self).summary
            }),
            final(self).known == old(self).known,
            final(self).probe == old(self).probe,
            final(self).total == old(self).total,
            final(self).queued == old(self).queued,
            final(self).batch == old(self).batch,
    {
        self.processed = self.processed + 1;
        self.summary.errors = self.summary.errors + 1;
    }

    /// A queued file was read: it is not missing, and the library's rows say
    /// what has to be written.
    pub fn file_read(&mut self, e: &ExtractedFile) -> (v: Verdict)
        requires
            old(self).reading(),
        ensures
            final(self).reading(),
            v == verdict_of(old(self).probe@, e.abs_path@, e.modified_ms, e.hash@),
            final(self).known@ == old(self).known@.remove(e.abs_path@),
            final(self).probe == old(self).probe,
            final(self).summary == old(self).summary,
            final(self).processed == old(self).processed,
            final(self).total == old(self).total,
            final(self).queued == old(self).queued,
            final(self).batch == old(self).batch,
    {
        self.known.remove(e.abs_path.as_str());
        match self.probe.get(e.abs_path.as_str()) {
            Some(row) => {
                if row.modified_ms == e.modified_ms && same_text(row.hash.as_str(), e.hash.as_str()) {
                    Verdict::Unchanged { track_id: row.track_id, added_at: row.added_at }
                } else {
                    Verdict::Changed { track_id: row.track_id, added_at: row.added_at }
                }
            },
            None => Verdict::New,
        }
    }

    /// The rows for a file that was read are written. Says whether the
    /// transaction is full and has to be committed, and which event goes out.
    pub fn file_written(&mut self, verdict: Verdict) -> (r: Written)
        requires
            old(self).reading(),
            old(self).processed < old(self).total,
        ensures
            final(self).reading(),
            final(self).processed == old(self).processed + 1,
            final(self).summary == counted(old(self).summary, verdict),
            r.commit == (old(self).batch + 1 == TX_BATCH),
            r.commit == (old(self).batch + 1 == 200),
            final(self).batch == (if r.commit {
                0
            } else {
                old(self).batch + 1
            }),
            verdict is New ==> final(self).summary.added == old(self).summary.added + 1,
            verdict is Changed ==> final(self).summary.updated == old(self).summary.updated + 1,
            verdict is Unchanged ==> final(self).summary.skipped == old(self).summary.skipped + 1,
            final(self).summary.scanned == old(self).summary.scanned,
            final(self).summary.errors == old(self).summary.errors,
            final(self).summary.removed == old(self).summary.removed,
            final(self).summary.folder_id == old(self).summary.folder_id,
            r.tick is Some <==> final(self).processed == final(self).total || final(self).processed
                % 25 == 0,
            r.tick == tick_of(final(self).summary, final(self).processed, final(self).total),
            final(self).known == old(self).known,
            final(self).probe == old(self).probe,
            final(self).total == old(self).total,
            final(self).queued == old(self).queued,
    {
        self.processed = self.processed + 1;
        match verdict {
            Verdict::Unchanged { .. } => {
                self.summary.skipped = self.summary.skipped + 1;
            },
            Verdict::Changed { .. } => {
                self.summary.updated = self.summary.updated + 1;
            },
            Verdict::New => {
                self.summary.added = self.summary.added + 1;
            },
        }
        self.batch = self.batch + 1;
        let commit = self.batch >= TX_BATCH;
        if commit {
            self.batch = 0;
        }
        let tick = maybe_emit_progress(&self.summary, self.processed, self.total);
        Written { commit, tick }
    }

    /// The paths that were there at the last scan and that this one did not
    /// meet, each once.
    pub fn missing(&self) -> (v: Vec<String>)
        requires
            self.known.wf(),
        ensures
            text::texts(v@).no_duplicates(),
            forall|p: Seq<char>|
                #![trigger self.known@.contains_key(p)]
                self.known@.contains_key(p) <==> text::texts(v@).contains(p),
    {
        let mut v: Vec<String> = Vec::new();
        let mut i: usize = 0;
        while i < self.known.len()
            invariant
                i <= self.known.key_seq().len(),
                text::texts(v@) == self.known.key_seq().take(i as int),
            decreases self.known.key_seq().len() - i,
        {
            let ghost before = v@;
            let key = self.known.key_at(i).clone();
            v.push(key);
            assert(text::texts(v@) =~= text::texts(before).push(key@));
            assert(text::texts(v@) =~= self.known.key_seq().take(i + 1));
            i = i + 1;
        }
        proof {
            assert(self.known.key_seq().take(i as int) =~= self.known.key_seq());
            self.known.lemma_keys();
            assert forall|p: Seq<char>|
                #![trigger self.known@.contains_key(p)]
                self.known@.contains_key(p) <==> text::texts(v@).contains(p) by {
                assert(self.known.key_seq().contains(p) <==> self.known@.contains_key(p));
            }
        }
        v
    }

    /// A missing path was marked unavailable, if that touched a row.
    pub fn row_removed(&mut self, rows_affected: u64)
        requires
            old(self).reading(),
            old(self).summary.removed < u32::MAX,
        ensures
            final(self).summary == (ScanSummary {
                removed: (old(self).summary.removed + (if rows_affected > 0 {
                    1int
                } else {
                    0int
                })) as u32,
                ..old(self).summary
            }),
            final(self).reading(),
            final(self).known == old(self).known,
            final(self).probe == old(self).probe,
            final(self).total == old(self).total,
            final(self).processed == old(self).processed,
            final(self).queued == old(self).queued,
            final(self).batch == old(self).batch,
    {
        if rows_affected > 0 {
            self.summary.removed = self.summary.removed + 1;
        }
    }

    /// The event that ends the scan.
    pub fn closing_progress(&self) -> (r: ScanProgress)
        ensures
            r == progress_of(self.summary, self.total, self.total, true),
    {
        progress(&self.summary, self.total, self.total, true)
    }
}

/// The counters after one more file with this verdict.
pub open spec fn counted(s: ScanSummary, verdict: Verdict) -> ScanSummary {
    match verdict {
        Verdict::Unchanged { .. } => ScanSummary { skipped: (s.skipped + 1) as u32, ..s },
        Verdict::Changed { .. } => ScanSummary { updated: (s.updated + 1) as u32, ..s },
        Verdict::New => ScanSummary { added: (s.added + 1) as u32, ..s },
    }
}

/// Once every queued file is done, every file that the walk found is in exactly
/// one of the four counters.
pub proof fn every_file_is_counted_once(s: Scan)
    requires
        s.reading(),
        s.processed == s.total,
    ensures
        s.summary.added + s.summary.updated + s.summary.skipped + s.summary.errors
            == s.summary.scanned,
{
}

/// A file that is on disk as the library remembers it is not read again, and a
/// file that the library does not have is always read.
pub proof fn only_an_unchanged_known_file_is_skipped(
    known: Map<Seq<char>, DiskStat>,
    path: Seq<char>,
    stat: Option<DiskStat>,
)
    ensures
        known.contains_key(path) && stat == Some(known[path]) ==> same_on_disk(known, path, stat),
        !known.contains_key(path) ==> !same_on_disk(known, path, stat),
        stat is None ==> !same_on_disk(known, path, stat),
{
}

/// A file is unchanged exactly when the library has its path with the same
/// modification time and the same content.
pub proof fn unchanged_means_same_time_and_content(
    probe: Map<Seq<char>, ProbeRow>,
    path: Seq<char>,
    modified_ms: i64,
    hash: Seq<char>,
)
    ensures
        verdict_of(probe, path, modified_ms, hash) is Unchanged <==> probe.contains_key(path)
            && probe[path].modified_ms == modified_ms && probe[path].hash@ == hash,
        verdict_of(probe, path, modified_ms, hash) is New <==> !probe.contains_key(path),
{
}

/// Whether the walk keeps a file: its extension, in lower case, is one of the
/// given ones.
pub fn is_audio_extension(ext: &Option<String>, known: &Vec<String>) -> (r: bool)
    ensures
        r == (ext matches Some(x) && text::texts(known@).contains(text::unicode_lowercase(x@))),
{
    match ext {
        Some(x) => {
            let lower = x.as_str().to_lowercase();
            list_has(known, lower.as_str())
        },
        None => false,
    }
}

/// Whether the background analysis starts after a folder scan.
pub fn analyses_after(summary: &ScanSummary) -> (r: bool)
    ensures
        r == (summary.added > 0),
{
    summary.added > 0
}

/// Artist and genre ids that the scan has already resolved, by canonical name.
pub struct UpsertCache {
    pub artists: TextMap<i64>,
    pub genres: TextMap<i64>,
}

/// What the cache says of a canonical name.
#[derive(Clone, Copy, PartialEq, Eq, Debug, Structural)]
pub enum Lookup {
    /// The name is empty: there is nobody to resolve.
    Blank,
    /// Resolved before.
    Known(i64),
    /// The database has to say.
    Ask,
}

/// What a memo says of a canonical name.
pub open spec fn lookup_of(memo: Map<Seq<char>, i64>, canon: Seq<char>) -> Lookup {
    if canon.len() == 0 {
        Lookup::Blank
    } else if memo.contains_key(canon) {
        Lookup::Known(memo[canon])
    } else {
        Lookup::Ask
    }
}

fn look_up(memo: &TextMap<i64>, canon: &str) -> (r: Lookup)
    requires
        memo.wf(),
    ensures
        r == lookup_of(memo@, canon@),
{
    if canon.is_empty() {
        return Lookup::Blank;
    }
    match memo.get(canon) {
        Some(id) => Lookup::Known(*id),
        None => Lookup::Ask,
    }
}

impl UpsertCache {
    pub open spec fn wf(&self) -> bool {
        self.artists.wf() && self.genres.wf()
    }

    /// Nothing resolved yet.
    pub fn new() -> (c: Self)
        ensures
            c.wf(),
            c.artists@ == Map::<Seq<char>, i64>::empty(),
            c.genres@ == Map::<Seq<char>, i64>::empty(),
    {
        UpsertCache { artists: TextMap::new(), genres: TextMap::new() }
    }

    /// What is known of an artist.
    pub fn artist(&self, canon: &str) -> (r: Lookup)
        requires
            self.wf(),
        ensures
            r == lookup_of(self.artists@, canon@),
    {
        look_up(&self.artists, canon)
    }

    /// Keep what the database said of an artist, if it gave an id.
    pub fn learn_artist(&mut self, canon: String, id: Option<i64>)
        requires
            old(self).wf(),
        ensures
            final(self).wf(),
            final(self).genres == old(self).genres,
            final(self).artists@ == (match id {
                Some(i) => old(self).artists@.insert(canon@, i),
                None => old(self).artists@,
            }),
    {
        match id {
            Some(i) => self.artists.insert(canon, i),
            None => {},
        }
    }

    /// What is known of a genre.
    pub fn genre(&self, canon: &str) -> (r: Lookup)
        requires
            self.wf(),
        ensures
            r == lookup_of(self.genres@, canon@),
    {
        look_up(&self.genres, canon)
    }

    /// Keep what the database said of a genre, if it gave an id.
    pub fn learn_genre(&mut self, canon: String, id: Option<i64>)
        requires
            old(self).wf(),
        ensures
            final(self).wf(),
            final(self).artists == old(self).artists,
            final(self).genres@ == (match id {
                Some(i) => old(self).genres@.insert(canon@, i),
                None => old(self).genres@,
            }),
    {
        match id {
            Some(i) => self.genres.insert(canon, i),
            None => {},
        }
    }
}

/// A name that was resolved once is not asked for again, and learning it
/// changes the answer for no other name.
pub proof fn a_learned_name_is_known(
    memo: Map<Seq<char>, i64>,
    canon: Seq<char>,
    other: Seq<char>,
    id: i64,
)
    requires
        canon.len() > 0,
    ensures
        lookup_of(memo.insert(canon, id), canon) == Lookup::Known(id),
        other != canon ==> lookup_of(memo.insert(canon, id), other) == lookup_of(memo, other),
{
}

/// The ids among the answers, in order.
pub open spec fn present_ids(s: Seq<Option<i64>>) -> Seq<i64>
    decreases s.len(),
{
    if s.len() == 0 {
        Seq::empty()
    } else {
        match s.last() {
            Some(id) => present_ids(s.drop_last()).push(id),
            None => present_ids(s.drop_last()),
        }
    }
}

/// The artists of a track: the names that resolved to an id, in order.
pub fn artist_list(resolved: &Vec<Option<i64>>) -> (ids: Vec<i64>)
    ensures
        ids@ == present_ids(resolved@),
{
    let mut ids: Vec<i64> = Vec::new();
    let mut i: usize = 0;
    while i < resolved.len()
        invariant
            i <= resolved@.len(),
            ids@ == present_ids(resolved@.take(i as int)),
        decreases resolved@.len() - i,
    {
        assert(resolved@.take(i + 1).drop_last() =~= resolved@.take(i as int));
        match resolved[i] {
            Some(id) => ids.push(id),
            None => {},
        }
        i = i + 1;
    }
    assert(resolved@.take(i as int) =~= resolved@);
    ids
}

/// What a search for artist pictures came to.
#[derive(Clone, Copy, PartialEq, Eq, Debug, Structural)]
pub struct ArtistImageScanSummary {
    /// Artists without a picture that were looked at.
    pub considered: i64,
    /// Artists that have a picture now.
    pub linked: i64,
}

/// A running search for artist pictures.
pub struct ArtistImageScan {
    pub summary: ArtistImageScanSummary,
    /// Pictures linked since the last commit.
    pub batch: usize,
}

impl ArtistImageScan {
    /// No more pictures than artists, and less than a batch open.
    pub open spec fn wf(&self) -> bool {
        &&& 0 <= self.summary.linked <= self.summary.considered
        &&& self.batch < TX_BATCH
    }

    /// A search over `artists` artists.
    pub fn begin(artists: i64) -> (s: Self)
        requires
            0 <= artists,
        ensures
            s.wf(),
            s.summary.considered == artists,
            s.summary.linked == 0,
            s.batch == 0,
    {
        ArtistImageScan {
            summary: ArtistImageScanSummary { considered: artists, linked: 0 },
            batch: 0,
        }
    }

    /// One artist is done; the answer says whether to commit.
    pub fn artist_done(&mut self, linked: bool) -> (commit: bool)
        requires
            old(self).wf(),
            old(self).summary.linked < old(self).summary.considered,
        ensures
            final(self).wf(),
            final(self).summary.considered == old(self).summary.considered,
            final(self).summary.linked == old(self).summary.linked + (if linked {
                1int
            } else {
                0int
            }),
            commit == (linked && old(self).batch + 1 == TX_BATCH),
            commit == (linked && old(self).batch + 1 == 200),
            final(self).batch == (if !linked {
                old(self).batch as int
            } else if commit {
                0
            } else {
                old(self).batch + 1
            }),
    {
        if !linked {
            return false;
        }
        self.summary.linked = self.summary.linked + 1;
        self.batch = self.batch + 1;
        if self.batch >= TX_BATCH {
            self.batch = 0;
            true
        } else {
            false
        }
    }

    /// The artist of the compilations, who is looked for apart: `None` when the
    /// library has no such artist without a picture.
    pub fn various_artists(&mut self, found: Option<bool>)
        requires
            old(self).wf(),
            old(self).summary.considered < i64::MAX,
        ensures
            final(self).wf(),
            final(self).batch == old(self).batch,
            final(self).summary == (match found {
                None => old(self).summary,
                Some(l) => ArtistImageScanSummary {
                    considered: (old(self).summary.considered + 1) as i64,
                    linked: (old(self).summary.linked + (if l {
                        1int
                    } else {
                        0int
                    })) as i64,
                },
            }),
    {
        match found {
            Some(l) => {
                self.summary.considered = self.summary.considered + 1;
                if l {
                    self.summary.linked = self.summary.linked + 1;
                }
            },
            None => {},
        }
    }
}

/// What other devices are told of a track.
#[derive(PartialEq, Eq, Debug)]
pub struct TrackInsertWire {
    pub file_hash: String,
    pub title: String,
    pub file_size: i64,
    pub file_modified: i64,
    pub duration_ms: i64,
    pub track_number: Option<i64>,
    pub disc_number: Option<i64>,
    pub year: Option<i64>,
    pub bitrate: Option<i64>,
    pub sample_rate: Option<i64>,
    pub channels: Option<i64>,
    pub bit_depth: Option<i64>,
    pub codec: Option<String>,
    pub musical_key: Option<String>,
    pub added_at: i64,
    pub album_title: Option<String>,
    pub album_artist_name: Option<String>,
    pub is_compilation: bool,
    pub artists: Vec<String>,
}

/// The announcement of a track. `artists` holds the names that its artist tag
/// splits into; a track without that tag has none.
pub fn emit_track_insert_from_extracted(
    e: &ExtractedFile,
    artists: Vec<String>,
    added_at: i64,
) -> (w: TrackInsertWire)
    ensures
        w == (TrackInsertWire {
            file_hash: e.hash,
            title: e.title,
            file_size: e.size,
            file_modified: e.modified_ms,
            duration_ms: e.duration_ms,
            track_number: e.track_number,
            disc_number: e.disc_number,
            year: e.year,
            bitrate: e.bitrate,
            sample_rate: e.sample_rate,
            channels: e.channels,
            bit_depth: e.bit_depth,
            codec: e.codec,
            musical_key: e.musical_key,
            added_at,
            album_title: e.album,
            album_artist_name: e.album_artist,
            is_compilation: e.is_compilation,
            artists: w.artists,
        }),
        e.artist is Some ==> w.artists == artists,
        e.artist is None ==> w.artists@.len() == 0,
{
    let artists = if e.artist.is_some() {
        artists
    } else {
        Vec::new()
    };
    TrackInsertWire {
        file_hash: e.hash.clone(),
        title: e.title.clone(),
        file_size: e.size,
        file_modified: e.modified_ms,
        duration_ms: e.duration_ms,
        track_number: e.track_number,
        disc_number: e.disc_number,
        year: e.year,
        bitrate: e.bitrate,
        sample_rate: e.sample_rate,
        channels: e.channels,
        bit_depth: e.bit_depth,
        codec: clone_opt(&e.codec),
        musical_key: clone_opt(&e.musical_key),
        added_at,
        album_title: clone_opt(&e.album),
        album_artist_name: clone_opt(&e.album_artist),
        is_compilation: e.is_compilation,
        artists,
    }
}

/// A progress event goes out at every twenty-fifth file and at the last, and carries the
/// counters as they stand, each under its own name.
pub proof fn an_event_carries_the_counters(s: ScanSummary, current: usize, total: usize, done: bool)
    ensures
        tick_of(s, current, total) is Some <==> current == total || current % 25 == 0,
        tick_of(s, current, total) matches Some(p) ==> p == progress_of(s, current, total, false),
        ({
            let p = progress_of(s, current, total, done);
            &&& p.folder_id == s.folder_id
            &&& p.current == current
            &&& p.total == total
            &&& p.added == s.added
            &&& p.updated == s.updated
            &&& p.skipped == s.skipped
            &&& p.errors == s.errors
            &&& p.done == done
        }),
{
}

/// A known file whose size or modification time differs from its row's is read again.
pub proof fn a_touched_file_is_read_again(
    known: Map<Seq<char>, DiskStat>,
    path: Seq<char>,
    d: DiskStat,
)
    requires
        known.contains_key(path),
    ensures
        same_on_disk(known, path, Some(d)) <==> d.size == known[path].size && d.modified_ms
            == known[path].modified_ms,
{
}

/// A file that the library has is held against the row of its own path: its verdict names
/// that row's track, with the time at which it was added.
pub proof fn a_verdict_names_the_track(
    probe: Map<Seq<char>, ProbeRow>,
    path: Seq<char>,
    modified_ms: i64,
    hash: Seq<char>,
)
    requires
        probe.contains_key(path),
    ensures
        verdict_of(probe, path, modified_ms, hash) matches Verdict::Unchanged {
            track_id,
            added_at,
        } ==> track_id == probe[path].track_id && added_at == probe[path].added_at,
        verdict_of(probe, path, modified_ms, hash) matches Verdict::Changed {
            track_id,
            added_at,
        } ==> track_id == probe[path].track_id && added_at == probe[path].added_at,
        verdict_of(probe, path, modified_ms, hash) is Changed <==> probe[path].modified_ms
            != modified_ms || probe[path].hash@ != hash,
{
}

/// A file that was written goes into one counter, by its verdict, and into no other.
pub proof fn a_file_goes_into_its_counter(s: ScanSummary, verdict: Verdict)
    requires
        s.added < u32::MAX && s.updated < u32::MAX && s.skipped < u32::MAX,
    ensures
        counted(s, verdict).added == s.added + (if verdict is New {
            1int
        } else {
            0
        }),
        counted(s, verdict).updated == s.updated + (if verdict is Changed {
            1int
        } else {
            0
        }),
        counted(s, verdict).skipped == s.skipped + (if verdict is Unchanged {
            1int
        } else {
            0
        }),
        counted(s, verdict).errors == s.errors && counted(s, verdict).scanned == s.scanned
            && counted(s, verdict).removed == s.removed && counted(s, verdict).folder_id
            == s.folder_id,
{
}

/// The artists of a track are those that resolved, in their order: one more that did comes
/// last, and one that did not changes nothing.
pub proof fn resolved_artists_keep_their_order(s: Seq<Option<i64>>, id: i64)
    ensures
        present_ids(s.push(Some(id))) == present_ids(s).push(id),
        present_ids(s.push(None)) == present_ids(s),
        present_ids(Seq::<Option<i64>>::empty()).len() == 0,
{
    assert(s.push(Some(id)).drop_last() =~= s);
    assert(s.push(None).drop_last() =~= s);
}

/// An empty name resolves to nobody, and a name that was not resolved yet is asked for.
pub proof fn an_empty_name_is_nobody(memo: Map<Seq<char>, i64>, canon: Seq<char>)
    ensures
        lookup_of(memo, Seq::<char>::empty()) == Lookup::Blank,
        canon.len() > 0 && !memo.contains_key(canon) ==> lookup_of(memo, canon) == Lookup::Ask,
        canon.len() > 0 && memo.contains_key(canon) ==> lookup_of(memo, canon) == Lookup::Known(
            memo[canon],
        ),
{
}

} // verus!
